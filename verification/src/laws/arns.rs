//! Laws on ARNs, and on S3 URIs and the ARNs that go with them.
use vstd::prelude::*;
use vstd::string::*;

use crate::arn::arn_fault;
use crate::arn::arn_fields;
use crate::arn::arn_matches;
use crate::arn::build_arn;
use crate::arn::lemma_arn_fields;
use crate::arn::parse_arn;
use crate::arn::valid_arn;
use crate::glob::glob;
use crate::json::JsonView;
use crate::laws::strings::law_after_head;
use crate::laws::strings::joined;
use crate::laws::strings::law_cut_either;
use crate::laws::strings::law_fields_up_to;
use crate::laws::strings::law_without_leading;
use crate::split::fields_up_to;
use crate::split::lacks;
use crate::split::lemma_cut_back;
use crate::split::lemma_cut_char;
use crate::uri::arn_to_uri;
use crate::uri::build_uri;
use crate::uri::parse_uri;
use crate::uri::s3_uri_parts;
use crate::uri::uri_to_arn;
use vstd::utf8::encode_utf8;

verus! {

/// Six fields with colons between them.
pub open spec fn six_fields(
    first: Seq<char>,
    partition: Seq<char>,
    service: Seq<char>,
    region: Seq<char>,
    account: Seq<char>,
    resource: Seq<char>,
) -> Seq<char> {
    first + seq![':'] + partition + seq![':'] + service + seq![':'] + region + seq![':'] + account
        + seq![':'] + resource
}

/// None of five texts holds a colon.
pub open spec fn no_colons(
    first: Seq<char>,
    partition: Seq<char>,
    service: Seq<char>,
    region: Seq<char>,
    account: Seq<char>,
) -> bool {
    !first.contains(':') && !partition.contains(':') && !service.contains(':') && !region.contains(
        ':',
    ) && !account.contains(':')
}

proof fn lemma_lacks(text: Seq<char>, c: char)
    ensures
        lacks(text, c) <==> !text.contains(c),
{
    if lacks(text, c) {
        assert(!text.contains(c));
    } else {
        let i = choose|i: int| 0 <= i < text.len() && #[trigger] text[i] == c;
        assert(text.contains(c));
    }
}

/// Six fields are found again.
proof fn lemma_six_fields(
    first: Seq<char>,
    partition: Seq<char>,
    service: Seq<char>,
    region: Seq<char>,
    account: Seq<char>,
    resource: Seq<char>,
)
    requires
        no_colons(first, partition, service, region, account),
    ensures
        arn_fields(six_fields(first, partition, service, region, account, resource)) == seq![
            first,
            partition,
            service,
            region,
            account,
            resource,
        ],
{
    reveal_strlit(":");
    let c = seq![':'];
    assert(":"@ =~= c);
    lemma_lacks(first, ':');
    lemma_lacks(partition, ':');
    lemma_lacks(service, ':');
    lemma_lacks(region, ':');
    lemma_lacks(account, ':');
    let r4 = account + c + resource;
    let r3 = region + c + r4;
    let r2 = service + c + r3;
    let r1 = partition + c + r2;
    let arn = six_fields(first, partition, service, region, account, resource);
    assert(arn =~= first + c + r1);
    lemma_cut_back(first, ':', r1);
    lemma_cut_back(partition, ':', r2);
    lemma_cut_back(service, ':', r3);
    lemma_cut_back(region, ':', r4);
    lemma_cut_back(account, ':', resource);
    reveal_with_fuel(fields_up_to, 6);
    assert(arn_fields(arn) =~= seq![first, partition, service, region, account, resource]);
}

/// A text with six fields, the first of them `arn`, is made of them.
proof fn lemma_made_of_six(arn: Seq<char>)
    requires
        arn_fields(arn).len() >= 6,
        arn_fields(arn)[0] == "arn"@,
    ensures
        ({
            let f = arn_fields(arn);
            &&& no_colons("arn"@, f[1], f[2], f[3], f[4])
            &&& arn == six_fields("arn"@, f[1], f[2], f[3], f[4], f[5])
        }),
{
    lemma_arn_fields(arn);
    reveal_strlit(":");
    reveal_strlit("arn:");
    reveal_strlit("arn");
    assert(":"@ =~= seq![':']);
    let f = arn_fields(arn);
    assert("arn:"@ =~= "arn"@ + seq![':']);
    assert forall|i: int| 0 <= i < 5 implies !(#[trigger] f[i]).contains(':') by {
        lemma_lacks(f[i], ':');
    }
    assert(!f[0].contains(':') && !f[1].contains(':') && !f[2].contains(':') && !f[3].contains(':')
        && !f[4].contains(':'));
    assert(arn =~= six_fields("arn"@, f[1], f[2], f[3], f[4], f[5]));
}

proof fn lemma_names()
    ensures
        "arn"@.len() == 3,
        "partition"@.len() == 9,
        "service"@.len() == 7,
        "region"@.len() == 6,
        "account_id"@.len() == 10,
        "resource"@.len() == 8,
        "resource_type"@.len() == 13,
        "resource_id"@.len() == 11,
        "valid"@.len() == 5,
        "reason"@.len() == 6,
        "region"@ != "reason"@,
        "matches"@.len() == 7,
        "pattern"@.len() == 7,
        "matches"@ != "pattern"@,
        "bucket"@.len() == 6,
        "key"@.len() == 3,
        "uri"@.len() == 3,
        "key"@ != "uri"@,
        "arn"@ != "key"@,
        ""@.len() == 0,
        "arn"@ == seq!['a', 'r', 'n'],
{
    reveal_strlit("arn");
    reveal_strlit("partition");
    reveal_strlit("service");
    reveal_strlit("region");
    reveal_strlit("account_id");
    reveal_strlit("resource");
    reveal_strlit("resource_type");
    reveal_strlit("resource_id");
    reveal_strlit("valid");
    reveal_strlit("reason");
    reveal_strlit("matches");
    reveal_strlit("pattern");
    reveal_strlit("bucket");
    reveal_strlit("key");
    reveal_strlit("uri");
    reveal_strlit("");
    assert("region"@[2] == 'g' && "reason"@[2] == 'a');
    assert("matches"@[0] == 'm' && "pattern"@[0] == 'p');
    assert("key"@[0] == 'k' && "uri"@[0] == 'u' && "arn"@[0] == 'a');
    assert("arn"@ =~= seq!['a', 'r', 'n']);
}

/// An ARN is read as its fields: partition, service and resource as they are, region and account as
/// they are or null where they are empty. The resource is its type, a slash or a colon, and its ID,
/// and neither of these marks stands in the type; where there is no type, neither stands in the
/// resource, and the ID is all of it.
pub proof fn law_arn_is_read(
    opts: JsonView,
    partition: Seq<char>,
    service: Seq<char>,
    region: Seq<char>,
    account: Seq<char>,
    resource: Seq<char>,
)
    requires
        no_colons(partition, partition, service, region, account),
        opts.text_field("arn"@) == Some(
            six_fields(seq!['a', 'r', 'n'], partition, service, region, account, resource),
        ),
    ensures
        parse_arn(opts) is Ok,
        ({
            let said = parse_arn(opts)->Ok_0;
            let id = said.text_field("resource_id"@);
            &&& said.text_field("partition"@) == Some(partition)
            &&& said.text_field("service"@) == Some(service)
            &&& said.text_field("resource"@) == Some(resource)
            &&& said.field("region"@) == Some(
                if region.len() == 0 {
                    JsonView::Null
                } else {
                    JsonView::Text(region)
                },
            )
            &&& said.field("account_id"@) == Some(
                if account.len() == 0 {
                    JsonView::Null
                } else {
                    JsonView::Text(account)
                },
            )
            &&& id is Some
            &&& match said.field("resource_type"@) {
                Some(JsonView::Text(kind)) => {
                    &&& resource == kind + seq!['/'] + id.unwrap() || resource == kind + seq![':']
                        + id.unwrap()
                    &&& !kind.contains('/') && !kind.contains(':')
                },
                Some(JsonView::Null) => {
                    &&& id.unwrap() == resource
                    &&& !resource.contains('/') && !resource.contains(':')
                },
                _ => false,
            }
            &&& said->Object_0.dom() == set![
                "partition"@,
                "service"@,
                "region"@,
                "account_id"@,
                "resource"@,
                "resource_type"@,
                "resource_id"@,
            ]
        }),
{
    lemma_names();
    assert(!seq!['a', 'r', 'n'].contains(':'));
    lemma_six_fields(seq!['a', 'r', 'n'], partition, service, region, account, resource);
    law_cut_either(resource, '/', ':');
    let said = parse_arn(opts)->Ok_0;
    assert(said->Object_0.dom() =~= set![
        "partition"@,
        "service"@,
        "region"@,
        "account_id"@,
        "resource"@,
        "resource_type"@,
        "resource_id"@,
    ]);
}

/// Only what is made of `arn` and five more fields is read, and the message for anything else says
/// what was wanted.
pub proof fn law_other_texts_are_no_arns(opts: JsonView, arn: Seq<char>)
    ensures
        opts.text_field("arn"@) is None ==> parse_arn(opts) == Err::<JsonView, Seq<char>>(
            "missing arn"@,
        ),
        opts.text_field("arn"@) == Some(arn) ==> match parse_arn(opts) {
            Ok(said) => {
                let partition = said.text_field("partition"@).unwrap();
                let service = said.text_field("service"@).unwrap();
                let region = said.text_field("region"@).unwrap_or(Seq::empty());
                let account = said.text_field("account_id"@).unwrap_or(Seq::empty());
                let resource = said.text_field("resource"@).unwrap();
                &&& no_colons(partition, partition, service, region, account)
                &&& arn == six_fields(
                    seq!['a', 'r', 'n'],
                    partition,
                    service,
                    region,
                    account,
                    resource,
                )
            },
            Err(message) => message
                == "not an ARN (want arn:partition:service:region:account:resource): "@ + arn,
        },
{
    lemma_names();
    if opts.text_field("arn"@) == Some(arn) && parse_arn(opts) is Ok {
        lemma_made_of_six(arn);
        let f = arn_fields(arn);
        let said = parse_arn(opts)->Ok_0;
        assert(said.text_field("partition"@) == Some(f[1]));
        assert(said.text_field("service"@) == Some(f[2]));
        assert(said.text_field("resource"@) == Some(f[5]));
        assert(said.text_field("region"@).unwrap_or(Seq::empty()) =~= f[3]);
        assert(said.text_field("account_id"@).unwrap_or(Seq::empty()) =~= f[4]);
    }
}

/// An ARN is built of its fields with colons between them: the partition is `aws` where none is
/// given, and the region and the account are empty.
pub proof fn law_arn_is_built(opts: JsonView)
    ensures
        match (opts.text_field("service"@), opts.text_field("resource"@)) {
            (Some(service), Some(resource)) => {
                &&& build_arn(opts) is Ok
                &&& build_arn(opts)->Ok_0->Object_0.dom() == set!["arn"@]
                &&& build_arn(opts)->Ok_0.text_field("arn"@) == Some(
                    six_fields(
                        seq!['a', 'r', 'n'],
                        opts.text_field("partition"@).unwrap_or(seq!['a', 'w', 's']),
                        service,
                        opts.text_field("region"@).unwrap_or(Seq::empty()),
                        opts.text_field("account_id"@).unwrap_or(Seq::empty()),
                        resource,
                    ),
                )
            },
            (None, _) => build_arn(opts) == Err::<JsonView, Seq<char>>("missing service"@),
            (_, None) => build_arn(opts) == Err::<JsonView, Seq<char>>("missing resource"@),
        },
{
    lemma_names();
    reveal_strlit("aws");
    reveal_strlit(":");
    reveal_strlit("arn:");
    assert("aws"@ =~= seq!['a', 'w', 's']);
    assert(":"@ =~= seq![':']);
    assert("arn:"@ =~= seq!['a', 'r', 'n'] + seq![':']);
    assert(""@ =~= Seq::<char>::empty());
    if opts.text_field("service"@) is Some && opts.text_field("resource"@) is Some {
        let said = build_arn(opts)->Ok_0;
        assert(said->Object_0.dom() =~= set!["arn"@]);
        assert(said.text_field("arn"@).unwrap() =~= six_fields(
            seq!['a', 'r', 'n'],
            opts.text_field("partition"@).unwrap_or(seq!['a', 'w', 's']),
            opts.text_field("service"@).unwrap(),
            opts.text_field("region"@).unwrap_or(Seq::empty()),
            opts.text_field("account_id"@).unwrap_or(Seq::empty()),
            opts.text_field("resource"@).unwrap(),
        ));
    }
}

/// Of a text with six fields: it is an ARN where the first is `arn` and the partition, the service
/// and the resource are not empty, and else the first of these that fails is the reason.
pub proof fn law_valid_arn_reasons(
    first: Seq<char>,
    partition: Seq<char>,
    service: Seq<char>,
    region: Seq<char>,
    account: Seq<char>,
    resource: Seq<char>,
)
    requires
        no_colons(first, partition, service, region, account),
    ensures
        arn_fault(six_fields(first, partition, service, region, account, resource)) == if first
            != seq!['a', 'r', 'n'] {
            Some("must begin with the literal `arn`"@)
        } else if partition.len() == 0 {
            Some("partition (field 2) must not be empty"@)
        } else if service.len() == 0 {
            Some("service (field 3) must not be empty"@)
        } else if resource.len() == 0 {
            Some("resource (field 6) must not be empty"@)
        } else {
            None
        },
{
    lemma_names();
    lemma_six_fields(first, partition, service, region, account, resource);
}

/// A valid ARN is made of `arn` and five more fields, of which the partition, the service and the
/// resource are not empty. The answer repeats the text, and has a reason just where it is not valid.
pub proof fn law_valid_arn(opts: JsonView, arn: Seq<char>)
    requires
        opts.text_field_or("arn"@, "value"@) == Some(arn),
    ensures
        valid_arn(opts) is Ok,
        ({
            let said = valid_arn(opts)->Ok_0;
            &&& said.text_field("arn"@) == Some(arn)
            &&& said->Object_0.dom() == set!["arn"@, "valid"@, "reason"@]
            &&& said.bool_field("valid"@) is Some
            &&& said.bool_field("valid"@).unwrap() <==> said.field("reason"@) == Some(JsonView::Null)
            &&& !said.bool_field("valid"@).unwrap() ==> said.text_field("reason"@) is Some
            &&& said.bool_field("valid"@).unwrap() <==> exists|
                partition: Seq<char>,
                service: Seq<char>,
                region: Seq<char>,
                account: Seq<char>,
                resource: Seq<char>,
            |
                {
                    &&& arn == #[trigger] six_fields(
                        "arn"@,
                        partition,
                        service,
                        region,
                        account,
                        resource,
                    )
                    &&& no_colons(partition, partition, service, region, account)
                    &&& partition.len() > 0 && service.len() > 0 && resource.len() > 0
                }
        }),
{
    lemma_names();
    let said = valid_arn(opts)->Ok_0;
    assert(said->Object_0.dom() =~= set!["arn"@, "valid"@, "reason"@]);
    assert(said.bool_field("valid"@) == Some(arn_fault(arn) is None));
    if arn_fault(arn) is None {
        lemma_made_of_six(arn);
    }
    assert forall|
        partition: Seq<char>,
        service: Seq<char>,
        region: Seq<char>,
        account: Seq<char>,
        resource: Seq<char>,
    |
        ({
            &&& arn == #[trigger] six_fields(
                "arn"@,
                partition,
                service,
                region,
                account,
                resource,
            )
            &&& no_colons(partition, partition, service, region, account)
            &&& partition.len() > 0 && service.len() > 0 && resource.len() > 0
        }) implies arn_fault(arn) is None by {
        assert(!seq!['a', 'r', 'n'].contains(':'));
        law_valid_arn_reasons(
            seq!['a', 'r', 'n'],
            partition,
            service,
            region,
            account,
            resource,
        );
    }
}

/// Whether an ARN matches a pattern is told beside both.
pub proof fn law_arn_matches(opts: JsonView, pattern: Seq<char>, arn: Seq<char>)
    ensures
        opts.text_field("pattern"@) is None ==> arn_matches(opts) == Err::<JsonView, Seq<char>>(
            "missing pattern"@,
        ),
        opts.text_field("pattern"@) == Some(pattern) && opts.text_field_or("arn"@, "value"@) is None
            ==> arn_matches(opts) == Err::<JsonView, Seq<char>>("missing arn"@),
        opts.text_field("pattern"@) == Some(pattern) && opts.text_field_or("arn"@, "value"@) == Some(
            arn,
        ) ==> {
            &&& arn_matches(opts) is Ok
            &&& arn_matches(opts)->Ok_0.text_field("pattern"@) == Some(pattern)
            &&& arn_matches(opts)->Ok_0.text_field("arn"@) == Some(arn)
            &&& arn_matches(opts)->Ok_0.bool_field("matches"@) == Some(
                glob(encode_utf8(pattern), encode_utf8(arn)),
            )
            &&& arn_matches(opts)->Ok_0->Object_0.dom() == set!["pattern"@, "arn"@, "matches"@]
        },
{
    lemma_names();
    if opts.text_field("pattern"@) == Some(pattern) && opts.text_field_or("arn"@, "value"@) == Some(
        arn,
    ) {
        assert(arn_matches(opts)->Ok_0->Object_0.dom() =~= set![
            "pattern"@,
            "arn"@,
            "matches"@,
        ]);
    }
}

/// A path without a slash, and one with a slash behind what has none.
proof fn lemma_path(bucket: Seq<char>, key: Seq<char>)
    requires
        !bucket.contains('/'),
    ensures
        crate::uri::bucket_and_key(bucket) == (bucket, None::<Seq<char>>),
        crate::uri::bucket_and_key(bucket + seq!['/'] + key) == (bucket, Some(key)),
{
    reveal_strlit("/");
    assert("/"@ =~= seq!['/']);
    lemma_lacks(bucket, '/');
    lemma_cut_char(bucket, '/');
    lemma_cut_back(bucket, '/', key);
}

/// `s3://`, a bucket, a slash and a key are read as the bucket and the key, and `s3://` and a bucket
/// as the bucket with no key; a bucket is not empty.
pub proof fn law_uri_is_read(opts: JsonView, bucket: Seq<char>, key: Seq<char>)
    requires
        !bucket.contains('/'),
    ensures
        opts.text_field("uri"@) == Some("s3://"@ + bucket + seq!['/'] + key) ==> parse_uri(opts)
            == if bucket.len() == 0 {
            Err::<JsonView, Seq<char>>(
                "s3 URI missing bucket: "@ + opts.text_field("uri"@).unwrap(),
            )
        } else {
            Ok(
                JsonView::Object(
                    map!["bucket"@ => JsonView::Text(bucket), "key"@ => JsonView::Text(key)],
                ),
            )
        },
        opts.text_field("uri"@) == Some("s3://"@ + bucket) ==> parse_uri(opts) == if bucket.len()
            == 0 {
            Err::<JsonView, Seq<char>>(
                "s3 URI missing bucket: "@ + opts.text_field("uri"@).unwrap(),
            )
        } else {
            Ok(
                JsonView::Object(
                    map!["bucket"@ => JsonView::Text(bucket), "key"@ => JsonView::Null],
                ),
            )
        },
        s3_uri_parts("s3://"@ + bucket + seq!['/'] + key) == Ok::<
            (Seq<char>, Seq<char>),
            Seq<char>,
        >((bucket, key)),
        s3_uri_parts("s3://"@ + bucket) == Ok::<(Seq<char>, Seq<char>), Seq<char>>(
            (bucket, Seq::empty()),
        ),
{
    lemma_names();
    lemma_path(bucket, key);
    law_after_head("s3://"@, "s3://"@, bucket);
    law_after_head("s3://"@, "s3://"@, bucket + seq!['/'] + key);
    assert("s3://"@ + bucket + seq!['/'] + key =~= "s3://"@ + (bucket + seq!['/'] + key));
    assert(""@ =~= Seq::<char>::empty());
}

/// What does not begin with `s3://` is refused, and so is the absence of a URI.
pub proof fn law_other_texts_are_no_uris(opts: JsonView, uri: Seq<char>)
    requires
        !"s3://"@.is_prefix_of(uri),
    ensures
        opts.text_field("uri"@) is None ==> parse_uri(opts) == Err::<JsonView, Seq<char>>(
            "missing uri"@,
        ) && uri_to_arn(opts) == Err::<JsonView, Seq<char>>("missing uri"@),
        opts.text_field("uri"@) == Some(uri) ==> parse_uri(opts) == Err::<JsonView, Seq<char>>(
            "not an s3:// URI: "@ + uri,
        ) && uri_to_arn(opts) == Err::<JsonView, Seq<char>>("not an s3:// URI: "@ + uri),
        s3_uri_parts(uri) == Err::<(Seq<char>, Seq<char>), Seq<char>>(
            "expected `s3://bucket/key…`, got `"@ + uri + "`"@,
        ),
{
}

/// A text that six fields do not make up is no ARN, and has no URI; nor is there one without a text.
pub proof fn law_too_few_fields(opts: JsonView, arn: Seq<char>)
    requires
        forall|
            first: Seq<char>,
            partition: Seq<char>,
            service: Seq<char>,
            region: Seq<char>,
            account: Seq<char>,
            resource: Seq<char>,
        |
            no_colons(first, partition, service, region, account) ==> arn != #[trigger] six_fields(
                first,
                partition,
                service,
                region,
                account,
                resource,
            ),
    ensures
        arn_fault(arn) == Some(
            "must have 6 colon-delimited fields (arn:partition:service:region:account:resource)"@,
        ),
        opts.text_field("arn"@) == Some(arn) ==> arn_to_uri(opts) == Err::<JsonView, Seq<char>>(
            "not an s3 ARN: "@ + arn,
        ),
        opts.text_field("arn"@) is None ==> arn_to_uri(opts) == Err::<JsonView, Seq<char>>(
            "missing arn"@,
        ),
        opts.text_field_or("arn"@, "value"@) is None ==> valid_arn(opts) == Err::<
            JsonView,
            Seq<char>,
        >("missing arn"@),
{
    reveal_strlit(":");
    assert(":"@ =~= seq![':']);
    let f = arn_fields(arn);
    law_fields_up_to(arn, ':', 6);
    if f.len() >= 6 {
        reveal_with_fuel(joined, 6);
        assert(f.skip(1).skip(1) =~= f.skip(2));
        assert(f.skip(2).skip(1) =~= f.skip(3));
        assert(f.skip(3).skip(1) =~= f.skip(4));
        assert(f.skip(4).skip(1) =~= f.skip(5));
        assert(no_colons(f[0], f[1], f[2], f[3], f[4]));
        assert(arn =~= six_fields(f[0], f[1], f[2], f[3], f[4], f[5]));
    }
}

/// A URI is built of `s3://` and the bucket, and where the key is more than slashes, of a slash and
/// the key without those that it begins with.
pub proof fn law_uri_is_built(opts: JsonView, bucket: Seq<char>)
    ensures
        opts.text_field("bucket"@) is None ==> build_uri(opts) == Err::<JsonView, Seq<char>>(
            "missing bucket"@,
        ),
        opts.text_field("bucket"@) == Some(bucket) && bucket.len() == 0 ==> build_uri(opts) == Err::<
            JsonView,
            Seq<char>,
        >("bucket must not be empty"@),
        opts.text_field("bucket"@) == Some(bucket) && bucket.len() > 0 ==> {
            let said = build_uri(opts)->Ok_0;
            &&& build_uri(opts) is Ok
            &&& said->Object_0.dom() == set!["uri"@]
            &&& match opts.text_field("key"@) {
                None => said.text_field("uri"@) == Some("s3://"@ + bucket),
                Some(key) => {
                    if forall|i: int| 0 <= i < key.len() ==> #[trigger] key[i] == '/' {
                        said.text_field("uri"@) == Some("s3://"@ + bucket)
                    } else {
                        exists|n: int|
                            {
                                &&& 0 <= n < key.len() && #[trigger] key[n] != '/'
                                &&& forall|i: int| 0 <= i < n ==> #[trigger] key[i] == '/'
                                &&& said.text_field("uri"@) == Some(
                                    "s3://"@ + (bucket + seq!['/'] + key.skip(n)),
                                )
                            }
                    }
                },
            }
        },
{
    lemma_names();
    reveal_strlit("/");
    assert("/"@ =~= seq!['/']);
    if opts.text_field("bucket"@) == Some(bucket) && bucket.len() > 0 {
        let said = build_uri(opts)->Ok_0;
        assert(said->Object_0.dom() =~= set!["uri"@]);
        if let Some(key) = opts.text_field("key"@) {
            let n = law_without_leading(key, '/');
            if n < key.len() {
                assert(key[n] != '/');
                assert(key.skip(n).len() > 0);
                assert(said.text_field("uri"@) == Some(
                    "s3://"@ + (bucket + seq!['/'] + key.skip(n)),
                ));
            } else {
                assert(key.skip(n).len() == 0);
            }
        }
    }
}

/// The ARN of an S3 URI: `arn`, the partition (`aws`, where none is given or an empty one), `s3`, no
/// region, no account, and the bucket; where there is a key that is not empty, a slash and the key.
pub proof fn law_arn_of_uri(opts: JsonView, bucket: Seq<char>, key: Seq<char>, slash: bool)
    requires
        bucket.len() > 0,
        !bucket.contains('/'),
        !slash ==> key.len() == 0,
        opts.text_field("uri"@) == Some(
            if slash {
                "s3://"@ + (bucket + seq!['/'] + key)
            } else {
                "s3://"@ + bucket
            },
        ),
    ensures
        uri_to_arn(opts) is Ok,
        ({
            let said = uri_to_arn(opts)->Ok_0;
            let partition = match opts.text_field("partition"@) {
                Some(given) => if given.len() > 0 {
                    given
                } else {
                    seq!['a', 'w', 's']
                },
                None => seq!['a', 'w', 's'],
            };
            let resource = if key.len() > 0 {
                bucket + seq!['/'] + key
            } else {
                bucket
            };
            &&& said.text_field("arn"@) == Some(
                six_fields(
                    seq!['a', 'r', 'n'],
                    partition,
                    seq!['s', '3'],
                    Seq::empty(),
                    Seq::empty(),
                    resource,
                ),
            )
            &&& said.text_field("bucket"@) == Some(bucket)
            &&& said.field("key"@) == Some(
                if key.len() > 0 {
                    JsonView::Text(key)
                } else {
                    JsonView::Null
                },
            )
            &&& said->Object_0.dom() == set!["arn"@, "bucket"@, "key"@]
        }),
{
    lemma_names();
    lemma_path(bucket, key);
    law_after_head("s3://"@, "s3://"@, bucket);
    law_after_head("s3://"@, "s3://"@, bucket + seq!['/'] + key);
    reveal_strlit("aws");
    reveal_strlit("arn:");
    reveal_strlit(":s3:::");
    reveal_strlit("/");
    assert("/"@ =~= seq!['/']);
    assert("aws"@ =~= seq!['a', 'w', 's']);
    let said = uri_to_arn(opts)->Ok_0;
    assert(said->Object_0.dom() =~= set!["arn"@, "bucket"@, "key"@]);
    let partition = match opts.text_field("partition"@) {
        Some(given) => if given.len() > 0 {
            given
        } else {
            "aws"@
        },
        None => "aws"@,
    };
    let resource = if key.len() > 0 {
        bucket + seq!['/'] + key
    } else {
        bucket
    };
    assert(said.text_field("arn"@) == Some("arn:"@ + partition + ":s3:::"@ + resource));
    assert("arn:"@ =~= seq!['a', 'r', 'n'] + seq![':']);
    assert(":s3:::"@ =~= seq![':'] + seq!['s', '3'] + seq![':'] + seq![':'] + seq![':']);
    assert("arn:"@ + partition + ":s3:::"@ + resource =~= six_fields(
        seq!['a', 'r', 'n'],
        partition,
        seq!['s', '3'],
        Seq::empty(),
        Seq::empty(),
        resource,
    ));
}

/// The URI of an ARN: of S3's alone, without region and account, and with a bucket. It is `s3://` and
/// the bucket, and where there is a key that is not empty, a slash and the key.
pub proof fn law_uri_of_arn(
    opts: JsonView,
    first: Seq<char>,
    partition: Seq<char>,
    service: Seq<char>,
    region: Seq<char>,
    account: Seq<char>,
    bucket: Seq<char>,
    key: Seq<char>,
    slash: bool,
)
    requires
        no_colons(first, partition, service, region, account),
        !bucket.contains('/'),
        !slash ==> key.len() == 0,
        opts.text_field("arn"@) == Some(
            six_fields(
                first,
                partition,
                service,
                region,
                account,
                if slash {
                    bucket + seq!['/'] + key
                } else {
                    bucket
                },
            ),
        ),
    ensures
        ({
            let arn = opts.text_field("arn"@).unwrap();
            if first != seq!['a', 'r', 'n'] || service != seq!['s', '3'] {
                arn_to_uri(opts) == Err::<JsonView, Seq<char>>("not an s3 ARN: "@ + arn)
            } else if region.len() > 0 || account.len() > 0 {
                arn_to_uri(opts) == Err::<JsonView, Seq<char>>(
                    "s3 ARN must have empty region and account: "@ + arn,
                )
            } else if bucket.len() == 0 {
                arn_to_uri(opts) == Err::<JsonView, Seq<char>>("s3 ARN missing bucket: "@ + arn)
            } else {
                let said = arn_to_uri(opts)->Ok_0;
                &&& arn_to_uri(opts) is Ok
                &&& said.text_field("uri"@) == Some(
                    if key.len() > 0 {
                        "s3://"@ + (bucket + seq!['/'] + key)
                    } else {
                        "s3://"@ + bucket
                    },
                )
                &&& said.text_field("bucket"@) == Some(bucket)
                &&& said.field("key"@) == Some(
                    if key.len() > 0 {
                        JsonView::Text(key)
                    } else {
                        JsonView::Null
                    },
                )
                &&& said->Object_0.dom() == set!["uri"@, "bucket"@, "key"@]
            }
        }),
{
    lemma_names();
    lemma_path(bucket, key);
    reveal_strlit("s3");
    reveal_strlit("/");
    assert("/"@ =~= seq!['/']);
    assert("s3"@ =~= seq!['s', '3']);
    let resource = if slash {
        bucket + seq!['/'] + key
    } else {
        bucket
    };
    lemma_six_fields(first, partition, service, region, account, resource);
    if arn_to_uri(opts) is Ok {
        assert(arn_to_uri(opts)->Ok_0->Object_0.dom() =~= set!["uri"@, "bucket"@, "key"@]);
    }
}

}
