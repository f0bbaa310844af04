//! `s3://bucket/key` URIs, and the ARNs that name the same buckets and objects.
use vstd::prelude::*;
use vstd::string::*;

use crate::arn::arn_fields;
use crate::arn::arn_text;
use crate::arn::lemma_arn_fields;
use crate::arn::lemma_arn_text;
use crate::json::outcome;
use crate::json::put;
use crate::json::text_or_null;
use crate::json::Json;
use crate::json::JsonView;
use crate::split::lacks;
use crate::split::lemma_cut_back;
use crate::split::lemma_cut_char;
use crate::split::split_up_to;
use crate::split::strs_view;
use crate::text::after_head;
use crate::text::cut;
use crate::text::same;
use crate::text::split_once;
use crate::text::str_view;
use crate::text::strip_prefix;
use crate::text::trim_start;
use crate::text::without_leading;

verus! {

/// The bucket and the key in `bucket/key`; there is no key where there is no slash.
pub open spec fn bucket_and_key(path: Seq<char>) -> (Seq<char>, Option<Seq<char>>) {
    match cut(path, "/"@) {
        Some((bucket, key)) => (bucket, Some(key)),
        None => (path, None),
    }
}

/// A text that is there and is not empty.
pub open spec fn unless_empty(text: Option<Seq<char>>) -> Option<Seq<char>> {
    match text {
        Some(t) => if t.len() == 0 {
            None
        } else {
            Some(t)
        },
        None => None,
    }
}

/// `bucket`, or `bucket/key` where there is a key.
pub open spec fn bucket_path(bucket: Seq<char>, key: Option<Seq<char>>) -> Seq<char> {
    match key {
        Some(k) => bucket + "/"@ + k,
        None => bucket,
    }
}

/// The URI of a bucket, or of the object under a key in it.
pub open spec fn s3_uri(bucket: Seq<char>, key: Option<Seq<char>>) -> Seq<char> {
    "s3://"@ + bucket_path(bucket, key)
}

/// A key as it stands in a URI: without leading slashes, and not empty.
pub open spec fn trimmed_key(key: Option<Seq<char>>) -> Option<Seq<char>> {
    match key {
        Some(k) => unless_empty(Some(without_leading(k, '/'))),
        None => None,
    }
}

/// What `parse_s3_uri` returns: the bucket, and the key or the empty text.
pub open spec fn s3_uri_parts(uri: Seq<char>) -> Result<(Seq<char>, Seq<char>), Seq<char>> {
    match after_head(uri, "s3://"@) {
        None => Err("expected `s3://bucket/key…`, got `"@ + uri + "`"@),
        Some(path) => {
            let (bucket, key) = bucket_and_key(path);
            Ok((bucket, key.unwrap_or(""@)))
        },
    }
}

/// What `op_parse_s3_uri` answers.
pub open spec fn parse_uri(opts: JsonView) -> Result<JsonView, Seq<char>> {
    match opts.text_field("uri"@) {
        None => Err("missing uri"@),
        Some(uri) => match after_head(uri, "s3://"@) {
            None => Err("not an s3:// URI: "@ + uri),
            Some(path) => {
                let (bucket, key) = bucket_and_key(path);
                if bucket.len() == 0 {
                    Err("s3 URI missing bucket: "@ + uri)
                } else {
                    Ok(
                        JsonView::Object(
                            map!["bucket"@ => JsonView::Text(bucket), "key"@ => text_or_null(key)],
                        ),
                    )
                }
            },
        },
    }
}

/// What `op_build_s3_uri` answers.
pub open spec fn build_uri(opts: JsonView) -> Result<JsonView, Seq<char>> {
    match opts.text_field("bucket"@) {
        None => Err("missing bucket"@),
        Some(bucket) => if bucket.len() == 0 {
            Err("bucket must not be empty"@)
        } else {
            let key = trimmed_key(opts.text_field("key"@));
            Ok(JsonView::Object(map!["uri"@ => JsonView::Text(s3_uri(bucket, key))]))
        },
    }
}

/// What `op_s3_uri_to_arn` answers.
pub open spec fn uri_to_arn(opts: JsonView) -> Result<JsonView, Seq<char>> {
    match opts.text_field("uri"@) {
        None => Err("missing uri"@),
        Some(uri) => match after_head(uri, "s3://"@) {
            None => Err("not an s3:// URI: "@ + uri),
            Some(path) => {
                let (bucket, raw) = bucket_and_key(path);
                let key = unless_empty(raw);
                let partition = unless_empty(opts.text_field("partition"@)).unwrap_or("aws"@);
                if bucket.len() == 0 {
                    Err("s3 URI missing bucket: "@ + uri)
                } else {
                    Ok(
                        JsonView::Object(
                            map![
                                "arn"@ => JsonView::Text(
                                    "arn:"@ + partition + ":s3:::"@ + bucket_path(bucket, key),
                                ),
                                "bucket"@ => JsonView::Text(bucket),
                                "key"@ => text_or_null(key),
                            ],
                        ),
                    )
                }
            },
        },
    }
}

/// What `op_arn_to_s3_uri` answers.
pub open spec fn arn_to_uri(opts: JsonView) -> Result<JsonView, Seq<char>> {
    match opts.text_field("arn"@) {
        None => Err("missing arn"@),
        Some(arn) => {
            let fields = arn_fields(arn);
            if fields.len() != 6 || fields[0] != "arn"@ || fields[2] != "s3"@ {
                Err("not an s3 ARN: "@ + arn)
            } else if fields[3].len() != 0 || fields[4].len() != 0 {
                Err("s3 ARN must have empty region and account: "@ + arn)
            } else {
                let (bucket, raw) = bucket_and_key(fields[5]);
                let key = unless_empty(raw);
                if bucket.len() == 0 {
                    Err("s3 ARN missing bucket: "@ + arn)
                } else {
                    Ok(
                        JsonView::Object(
                            map![
                                "uri"@ => JsonView::Text(s3_uri(bucket, key)),
                                "bucket"@ => JsonView::Text(bucket),
                                "key"@ => text_or_null(key),
                            ],
                        ),
                    )
                }
            }
        },
    }
}

/// A path that was made of a bucket and a key falls apart into them.
proof fn lemma_bucket_path(bucket: Seq<char>, key: Option<Seq<char>>)
    requires
        lacks(bucket, '/'),
    ensures
        bucket_and_key(bucket_path(bucket, key)) == (bucket, key),
{
    reveal_strlit("/");
    assert("/"@ =~= seq!['/']);
    match key {
        Some(k) => {
            lemma_cut_back(bucket, '/', k);
        },
        None => {
            lemma_cut_char(bucket, '/');
        },
    }
}

/// A bucket and a key that were taken out of a path make it up again.
proof fn lemma_path_of_parts(path: Seq<char>)
    ensures
        lacks(bucket_and_key(path).0, '/'),
        bucket_path(bucket_and_key(path).0, bucket_and_key(path).1) == path,
{
    reveal_strlit("/");
    assert("/"@ =~= seq!['/']);
    lemma_cut_char(path, '/');
}

proof fn lemma_after_scheme(path: Seq<char>)
    ensures
        after_head("s3://"@ + path, "s3://"@) == Some(path),
{
    let uri = "s3://"@ + path;
    let n = "s3://"@.len() as int;
    assert(uri.subrange(0, n) =~= "s3://"@);
    assert(uri.skip(n) =~= path);
}

proof fn lemma_scheme_and_path(uri: Seq<char>, path: Seq<char>)
    requires
        after_head(uri, "s3://"@) == Some(path),
    ensures
        uri == "s3://"@ + path,
{
    let n = "s3://"@.len() as int;
    assert(uri =~= uri.subrange(0, n) + uri.skip(n));
}

/// The ARN of a bucket or an object: neither region nor account.
proof fn lemma_s3_arn(partition: Seq<char>, resource: Seq<char>)
    ensures
        "arn:"@ + partition + ":s3:::"@ + resource == arn_text(
            partition,
            "s3"@,
            ""@,
            ""@,
            resource,
        ),
        lacks("s3"@, ':'),
        ""@.len() == 0,
{
    reveal_strlit(":");
    reveal_strlit("s3");
    reveal_strlit("");
    reveal_strlit(":s3:::");
    assert(":s3:::"@ =~= ":"@ + "s3"@ + ":"@ + ""@ + ":"@ + ""@ + ":"@);
    assert("arn:"@ + partition + ":s3:::"@ + resource =~= arn_text(
        partition,
        "s3"@,
        ""@,
        ""@,
        resource,
    ));
}

proof fn lemma_uri_names()
    ensures
        "uri"@.len() == 3,
        "arn"@.len() == 3,
        "uri"@ != "arn"@,
        "bucket"@.len() == 6,
        "key"@.len() == 3,
        "key"@ != "arn"@,
        "key"@ != "uri"@,
        "partition"@.len() == 9,
{
    reveal_strlit("uri");
    reveal_strlit("arn");
    reveal_strlit("bucket");
    reveal_strlit("key");
    reveal_strlit("partition");
    assert("uri"@[0] == 'u' && "arn"@[0] == 'a' && "key"@[0] == 'k');
}

proof fn lemma_leading(text: Seq<char>, c: char)
    requires
        text.len() > 0,
        text[0] != c,
    ensures
        without_leading(text, c) == text,
{
}

/// `parse_s3_uri` undoes `build_s3_uri`: the bucket comes back, and so does the key without the
/// slashes that it began with. A bucket with a slash in it is no bucket.
pub proof fn law_parse_undoes_build_uri(opts: JsonView)
    requires
        build_uri(opts) is Ok,
        lacks(opts.text_field("bucket"@).unwrap(), '/'),
    ensures
        parse_uri(build_uri(opts)->Ok_0) == Ok::<JsonView, Seq<char>>(
            JsonView::Object(
                map![
                    "bucket"@ => JsonView::Text(opts.text_field("bucket"@).unwrap()),
                    "key"@ => text_or_null(trimmed_key(opts.text_field("key"@))),
                ],
            ),
        ),
{
    let bucket = opts.text_field("bucket"@).unwrap();
    let key = trimmed_key(opts.text_field("key"@));
    lemma_bucket_path(bucket, key);
    lemma_after_scheme(bucket_path(bucket, key));
    assert(build_uri(opts)->Ok_0.text_field("uri"@) == Some(s3_uri(bucket, key)));
}

/// `build_s3_uri` undoes `parse_s3_uri`, but for a key that is empty or begins with a slash.
pub proof fn law_build_undoes_parse_uri(opts: JsonView, uri: Seq<char>)
    requires
        opts.text_field("uri"@) == Some(uri),
        parse_uri(opts) is Ok,
        parse_uri(opts)->Ok_0.text_field("key"@) matches Some(key) ==> key.len() > 0 && key[0]
            != '/',
    ensures
        build_uri(parse_uri(opts)->Ok_0) == Ok::<JsonView, Seq<char>>(
            JsonView::Object(map!["uri"@ => JsonView::Text(uri)]),
        ),
{
    lemma_uri_names();
    let path = after_head(uri, "s3://"@).unwrap();
    lemma_scheme_and_path(uri, path);
    lemma_path_of_parts(path);
    let (bucket, key) = bucket_and_key(path);
    let said = parse_uri(opts)->Ok_0;
    assert(said.text_field("bucket"@) == Some(bucket));
    assert(said.text_field("key"@) == key);
    if let Some(k) = key {
        lemma_leading(k, '/');
    }
}

/// The helper that returns a pair and the operation that answers in JSON agree on every URI that
/// names a bucket.
pub proof fn law_both_parsers_agree(uri: Seq<char>)
    ensures
        ({
            let answer = parse_uri(JsonView::Object(map!["uri"@ => JsonView::Text(uri)]));
            &&& answer is Ok <==> s3_uri_parts(uri) is Ok && s3_uri_parts(uri)->Ok_0.0.len() > 0
            &&& answer is Ok ==> answer->Ok_0.text_field("bucket"@) == Some(
                s3_uri_parts(uri)->Ok_0.0,
            ) && answer->Ok_0.text_field("key"@).unwrap_or(""@) == s3_uri_parts(uri)->Ok_0.1
        }),
{
    lemma_uri_names();
    let opts = JsonView::Object(map!["uri"@ => JsonView::Text(uri)]);
    assert(opts.text_field("uri"@) == Some(uri));
}

/// `arn_to_s3_uri` undoes `s3_uri_to_arn`, in every partition: a partition has no colon in it.
/// A slash at the end of a URI without a key goes lost.
pub proof fn law_arn_to_uri_undoes_uri_to_arn(opts: JsonView)
    requires
        uri_to_arn(opts) is Ok,
        lacks(unless_empty(opts.text_field("partition"@)).unwrap_or("aws"@), ':'),
    ensures
        ({
            let there = uri_to_arn(opts)->Ok_0;
            let back = arn_to_uri(there);
            &&& back is Ok
            &&& back->Ok_0.field("bucket"@) == there.field("bucket"@)
            &&& back->Ok_0.field("key"@) == there.field("key"@)
            &&& back->Ok_0.text_field("uri"@) == Some(
                s3_uri(there.text_field("bucket"@).unwrap(), there.text_field("key"@)),
            )
            &&& there.text_field("key"@) is Some || lacks(
                after_head(opts.text_field("uri"@).unwrap(), "s3://"@).unwrap(),
                '/',
            ) ==> back->Ok_0.text_field("uri"@) == opts.text_field("uri"@)
        }),
{
    lemma_uri_names();
    let uri = opts.text_field("uri"@).unwrap();
    let path = after_head(uri, "s3://"@).unwrap();
    let (bucket, raw) = bucket_and_key(path);
    let key = unless_empty(raw);
    let partition = unless_empty(opts.text_field("partition"@)).unwrap_or("aws"@);
    let resource = bucket_path(bucket, key);
    let there = uri_to_arn(opts)->Ok_0;
    let arn = "arn:"@ + partition + ":s3:::"@ + resource;
    lemma_s3_arn(partition, resource);
    lemma_arn_text(partition, "s3"@, ""@, ""@, resource);
    lemma_path_of_parts(path);
    lemma_bucket_path(bucket, key);
    lemma_scheme_and_path(uri, path);
    assert(there.text_field("arn"@) == Some(arn));
    assert(there.text_field("bucket"@) == Some(bucket));
    assert(there.text_field("key"@) == key);
    let back = arn_to_uri(there)->Ok_0;
    assert(back.text_field("uri"@) == Some(s3_uri(bucket, key)));
    if lacks(path, '/') {
        assert(raw is None) by {
            reveal_strlit("/");
            assert("/"@ =~= seq!['/']);
            lemma_cut_char(path, '/');
        }
    }
}

/// `s3_uri_to_arn` undoes `arn_to_s3_uri`, given the partition of the ARN; a slash at the end of
/// an ARN without a key goes lost.
pub proof fn law_uri_to_arn_undoes_arn_to_uri(opts: JsonView, arn: Seq<char>)
    requires
        opts.text_field("arn"@) == Some(arn),
        arn_to_uri(opts) is Ok,
        arn_fields(arn)[1].len() > 0,
        arn_to_uri(opts)->Ok_0.text_field("key"@) is Some || lacks(arn_fields(arn)[5], '/'),
    ensures
        ({
            let there = arn_to_uri(opts)->Ok_0;
            let back = uri_to_arn(
                JsonView::Object(
                    map![
                        "uri"@ => there.field("uri"@).unwrap(),
                        "partition"@ => JsonView::Text(arn_fields(arn)[1]),
                    ],
                ),
            );
            &&& back is Ok
            &&& back->Ok_0.text_field("arn"@) == Some(arn)
            &&& back->Ok_0.field("bucket"@) == there.field("bucket"@)
            &&& back->Ok_0.field("key"@) == there.field("key"@)
        }),
{
    lemma_uri_names();
    lemma_arn_fields(arn);
    let fields = arn_fields(arn);
    let partition = fields[1];
    let resource = fields[5];
    let (bucket, raw) = bucket_and_key(resource);
    let key = unless_empty(raw);
    lemma_path_of_parts(resource);
    lemma_bucket_path(bucket, key);
    lemma_after_scheme(bucket_path(bucket, key));
    let there = arn_to_uri(opts)->Ok_0;
    assert(there.text_field("key"@) == key);
    if lacks(resource, '/') {
        assert(raw is None) by {
            reveal_strlit("/");
            assert("/"@ =~= seq!['/']);
            lemma_cut_char(resource, '/');
        }
    }
    assert(bucket_path(bucket, key) == resource);
    lemma_s3_arn(partition, resource);
    assert(fields[3] =~= ""@);
    assert(fields[4] =~= ""@);
    let again = JsonView::Object(
        map![
            "uri"@ => there.field("uri"@).unwrap(),
            "partition"@ => JsonView::Text(partition),
        ],
    );
    assert(again.text_field("uri"@) == Some(s3_uri(bucket, key)));
    assert(again.text_field("partition"@) == Some(partition));
}

/// The bucket and the key in `bucket/key`.
pub(crate) fn split_path<'a>(path: &'a str) -> (parts: (&'a str, Option<&'a str>))
    ensures
        (parts.0@, str_view(parts.1)) == bucket_and_key(path@),
{
    proof {
        reveal_strlit("/");
    }
    match split_once(path, "/") {
        Some((bucket, key)) => (bucket, Some(key)),
        None => (path, None),
    }
}

/// A text that is there and is not empty.
pub(crate) fn filled<'a>(text: Option<&'a str>) -> (kept: Option<&'a str>)
    ensures
        str_view(kept) == unless_empty(str_view(text)),
{
    match text {
        Some(t) => if t.is_empty() {
            None
        } else {
            Some(t)
        },
        None => None,
    }
}

/// `bucket`, or `bucket/key` where there is a key, behind `head`.
fn join_path(head: &str, bucket: &str, key: Option<&str>) -> (path: String)
    ensures
        path@ == head@ + bucket_path(bucket@, str_view(key)),
{
    let path = head.to_owned().concat(bucket);
    match key {
        Some(k) => {
            let whole = path.concat("/").concat(k);
            assert(whole@ =~= head@ + (bucket@ + "/"@ + k@));
            whole
        },
        None => path,
    }
}

/// A key without leading slashes, if anything is left of it.
pub(crate) fn key_to_use<'a>(key: Option<&'a str>) -> (kept: Option<&'a str>)
    ensures
        str_view(kept) == trimmed_key(str_view(key)),
{
    match key {
        Some(k) => {
            proof {
                reveal_strlit("/");
            }
            filled(Some(trim_start(k, "/")))
        },
        None => None,
    }
}

/// The bucket and the key that an `s3://bucket/key` URI names; the key is empty where only the
/// bucket is given.
pub fn parse_s3_uri(uri: &str) -> (parts: Result<(String, String), String>)
    ensures
        match parts {
            Ok((bucket, key)) => s3_uri_parts(uri@) == Ok::<(Seq<char>, Seq<char>), Seq<char>>(
                (bucket@, key@),
            ),
            Err(message) => s3_uri_parts(uri@) == Err::<(Seq<char>, Seq<char>), Seq<char>>(
                message@,
            ),
        },
{
    match strip_prefix(uri, "s3://") {
        None => Err("expected `s3://bucket/key…`, got `".to_owned().concat(uri).concat("`")),
        Some(path) => {
            let (bucket, key) = split_path(path);
            Ok((bucket.to_owned(), key.unwrap_or("").to_owned()))
        },
    }
}

/// Takes the `uri` apart into bucket and key; the key is null where only the bucket is given.
pub fn op_parse_s3_uri(opts: Json) -> (answer: Result<Json, String>)
    ensures
        outcome(answer) == parse_uri(opts@),
{
    let uri = match opts.text_at("uri") {
        Some(uri) => uri,
        None => return Err("missing uri".to_owned()),
    };
    let path = match strip_prefix(uri, "s3://") {
        Some(path) => path,
        None => return Err("not an s3:// URI: ".to_owned().concat(uri)),
    };
    let (bucket, key) = split_path(path);
    if bucket.is_empty() {
        return Err("s3 URI missing bucket: ".to_owned().concat(uri));
    }
    let mut out: Vec<(String, Json)> = Vec::new();
    put(&mut out, "bucket", Json::text(bucket));
    put(&mut out, "key", Json::text_or_null(key));
    Ok(Json::Object(out))
}

/// Builds the URI of `bucket` and, where given, `key`, without the slashes that it begins with.
pub fn op_build_s3_uri(opts: Json) -> (answer: Result<Json, String>)
    ensures
        outcome(answer) == build_uri(opts@),
{
    let bucket = match opts.text_at("bucket") {
        Some(bucket) => bucket,
        None => return Err("missing bucket".to_owned()),
    };
    if bucket.is_empty() {
        return Err("bucket must not be empty".to_owned());
    }
    let key = key_to_use(opts.text_at("key"));
    let mut out: Vec<(String, Json)> = Vec::new();
    put(&mut out, "uri", Json::Text(join_path("s3://", bucket, key)));
    Ok(Json::Object(out))
}

/// The ARN of the bucket or object that `uri` names, in `partition` (else `aws`). Such an ARN has
/// neither region nor account.
pub fn op_s3_uri_to_arn(opts: Json) -> (answer: Result<Json, String>)
    ensures
        outcome(answer) == uri_to_arn(opts@),
{
    let uri = match opts.text_at("uri") {
        Some(uri) => uri,
        None => return Err("missing uri".to_owned()),
    };
    let path = match strip_prefix(uri, "s3://") {
        Some(path) => path,
        None => return Err("not an s3:// URI: ".to_owned().concat(uri)),
    };
    let (bucket, raw) = split_path(path);
    let key = filled(raw);
    if bucket.is_empty() {
        return Err("s3 URI missing bucket: ".to_owned().concat(uri));
    }
    let partition = filled(opts.text_at("partition")).unwrap_or("aws");
    let head = "arn:".to_owned().concat(partition).concat(":s3:::");
    let mut out: Vec<(String, Json)> = Vec::new();
    put(&mut out, "arn", Json::Text(join_path(head.as_str(), bucket, key)));
    put(&mut out, "bucket", Json::text(bucket));
    put(&mut out, "key", Json::text_or_null(key));
    Ok(Json::Object(out))
}

/// The URI of the bucket or object that the S3 ARN `arn` names.
pub fn op_arn_to_s3_uri(opts: Json) -> (answer: Result<Json, String>)
    ensures
        outcome(answer) == arn_to_uri(opts@),
{
    let arn = match opts.text_at("arn") {
        Some(arn) => arn,
        None => return Err("missing arn".to_owned()),
    };
    proof {
        reveal_strlit(":");
    }
    let fields = split_up_to(arn, ":", 6);
    let ghost views = strs_view(fields@);
    if fields.len() != 6 || !same(fields[0], "arn") || !same(fields[2], "s3") {
        return Err("not an s3 ARN: ".to_owned().concat(arn));
    }
    if !fields[3].is_empty() || !fields[4].is_empty() {
        return Err("s3 ARN must have empty region and account: ".to_owned().concat(arn));
    }
    let (bucket, raw) = split_path(fields[5]);
    let key = filled(raw);
    if bucket.is_empty() {
        return Err("s3 ARN missing bucket: ".to_owned().concat(arn));
    }
    let mut out: Vec<(String, Json)> = Vec::new();
    put(&mut out, "uri", Json::Text(join_path("s3://", bucket, key)));
    put(&mut out, "bucket", Json::text(bucket));
    put(&mut out, "key", Json::text_or_null(key));
    Ok(Json::Object(out))
}

}
