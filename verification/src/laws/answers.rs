//! Laws on what the operations that need no service answer, whatever they return.
use vstd::prelude::*;
use vstd::string::*;

use crate::arn::arn_matches;
use crate::arn::build_arn;
use crate::arn::op_arn_matches;
use crate::arn::op_build_arn;
use crate::arn::op_parse_arn;
use crate::arn::op_valid_arn;
use crate::arn::parse_arn;
use crate::arn::valid_arn;
use crate::endpoint::endpoint_parts;
use crate::endpoint::op_parse_service_endpoint;
use crate::endpoint::op_service_endpoint;
use crate::endpoint::parse_service_endpoint;
use crate::endpoint::service_endpoint;
use crate::endpoint::split_s3_endpoint;
use crate::json::Json;
use crate::json::JsonView;
use crate::laws::arns::law_arn_is_built;
use crate::laws::arns::law_arn_is_read;
use crate::laws::arns::law_other_texts_are_no_arns;
use crate::laws::arns::no_colons;
use crate::laws::arns::six_fields;
use crate::laws::regions::area_text;
use crate::laws::regions::law_partition;
use crate::laws::regions::law_region_is_judged;
use crate::laws::regions::law_standard_names;
use crate::laws::regions::law_valid_names;
use crate::laws::regions::number_text;
use crate::laws::regions::one_of_nine;
use crate::laws::regions::region_head;
use crate::laws::services::refused;
use crate::laws::urls::law_encoded_path_characters;
use crate::laws::urls::unreserved;
use crate::percent::decode_s3_key;
use crate::percent::decoded_key;
use crate::percent::encode_s3_key;
use crate::percent::percent_encoded;
use crate::region::dns_suffix;
use crate::region::dns_suffix_for_partition;
use crate::region::dns_suffix_of;
use crate::region::op_dns_suffix_for_partition;
use crate::region::op_partition_for_region;
use crate::region::op_region_for_az;
use crate::region::op_valid_region;
use crate::region::partition;
use crate::region::partition_for_region;
use crate::region::partition_of;
use crate::region::region_for_az;
use crate::region::valid_region;
use crate::s3url::op_parse_s3_url;
use crate::s3url::op_s3_object_url;
use crate::s3url::parse_s3_url;
use crate::s3url::s3_object_url;
use crate::uri::arn_to_uri;
use crate::uri::build_uri;
use crate::uri::op_arn_to_s3_uri;
use crate::uri::op_build_s3_uri;
use crate::uri::op_parse_s3_uri;
use crate::uri::op_s3_uri_to_arn;
use crate::uri::parse_s3_uri;
use crate::uri::parse_uri;
use crate::uri::s3_uri_parts;
use crate::uri::uri_to_arn;
use crate::validate::op_valid_account_id;
use crate::validate::op_valid_bucket_name;
use crate::validate::op_valid_s3_key;
use crate::validate::op_valid_sqs_queue_name;
use crate::validate::valid_account_id;
use crate::validate::valid_bucket_name;
use crate::validate::valid_s3_key;
use crate::validate::valid_sqs_queue_name;
use vstd::utf8::encode_utf8;

verus! {

/// An operation that answers as a definition says.
pub open spec fn answers(answer: Result<Json, String>, said: Result<JsonView, Seq<char>>) -> bool {
    match said {
        Ok(json) => answer matches Ok(a) && a@ == json,
        Err(message) => answer matches Err(m) && m@ == message,
    }
}

/// What the operations on ARNs and URIs answer is what the laws on ARNs and URIs speak of.
pub proof fn law_arn_answers(opts: Json, answer: Result<Json, String>)
    ensures
        call_ensures(op_parse_arn, (opts,), answer) ==> answers(answer, parse_arn(opts@)),
        call_ensures(op_build_arn, (opts,), answer) ==> answers(answer, build_arn(opts@)),
        call_ensures(op_valid_arn, (opts,), answer) ==> answers(answer, valid_arn(opts@)),
        call_ensures(op_arn_matches, (opts,), answer) ==> answers(answer, arn_matches(opts@)),
        call_ensures(op_parse_s3_uri, (opts,), answer) ==> answers(answer, parse_uri(opts@)),
        call_ensures(op_build_s3_uri, (opts,), answer) ==> answers(answer, build_uri(opts@)),
        call_ensures(op_s3_uri_to_arn, (opts,), answer) ==> answers(answer, uri_to_arn(opts@)),
        call_ensures(op_arn_to_s3_uri, (opts,), answer) ==> answers(answer, arn_to_uri(opts@)),
{
}

/// What the operations on URLs, endpoints, regions and names answer is what the laws on them speak of.
pub proof fn law_name_answers(opts: Json, answer: Result<Json, String>)
    ensures
        call_ensures(op_s3_object_url, (opts,), answer) ==> answers(answer, s3_object_url(opts@)),
        call_ensures(op_parse_s3_url, (opts,), answer) ==> answers(answer, parse_s3_url(opts@)),
        call_ensures(op_service_endpoint, (opts,), answer) ==> answers(
            answer,
            service_endpoint(opts@),
        ),
        call_ensures(op_parse_service_endpoint, (opts,), answer) ==> answers(
            answer,
            parse_service_endpoint(opts@),
        ),
        call_ensures(op_partition_for_region, (opts,), answer) ==> answers(
            answer,
            partition_for_region(opts@),
        ),
        call_ensures(op_dns_suffix_for_partition, (opts,), answer) ==> answers(
            answer,
            dns_suffix_for_partition(opts@),
        ),
        call_ensures(op_valid_region, (opts,), answer) ==> answers(answer, valid_region(opts@)),
        call_ensures(op_region_for_az, (opts,), answer) ==> answers(answer, region_for_az(opts@)),
        call_ensures(op_valid_bucket_name, (opts,), answer) ==> answers(
            answer,
            valid_bucket_name(opts@),
        ),
        call_ensures(op_valid_s3_key, (opts,), answer) ==> answers(answer, valid_s3_key(opts@)),
        call_ensures(op_valid_sqs_queue_name, (opts,), answer) ==> answers(
            answer,
            valid_sqs_queue_name(opts@),
        ),
        call_ensures(op_valid_account_id, (opts,), answer) ==> answers(
            answer,
            valid_account_id(opts@),
        ),
{
}

/// The functions on texts give what the laws on URIs, endpoints and regions speak of.
pub proof fn law_text_answers(
    text: &str,
    parts: Result<(String, String), String>,
    ends: Result<(String, &'static str), String>,
    name: &'static str,
    suffix: Option<&'static str>,
)
    requires
        call_ensures(parse_s3_uri, (text,), parts),
        call_ensures(split_s3_endpoint, (text,), ends),
        call_ensures(partition_of, (text,), name),
        call_ensures(dns_suffix_of, (text,), suffix),
    ensures
        match s3_uri_parts(text@) {
            Ok(two) => parts matches Ok(p) && p.0@ == two.0 && p.1@ == two.1,
            Err(message) => parts matches Err(m) && m@ == message,
        },
        match endpoint_parts(text@) {
            Some(two) => ends matches Ok(p) && p.0@ == two.0 && p.1@ == two.1,
            None => ends matches Err(m) && m@ == "unrecognized S3 endpoint host `"@ + text@ + "`"@,
        },
        name@ == partition(text@),
        match dns_suffix(text@) {
            Some(domain) => suffix matches Some(s) && s@ == domain,
            None => suffix is None,
        },
{
}

/// An ARN is read as its fields. The resource that is answered is its type, a slash or a colon, and
/// its ID, and neither mark stands in the type; without a type neither stands in the resource.
pub proof fn law_resource_of_an_arn(
    opts: Json,
    answer: Result<Json, String>,
    partition: Seq<char>,
    service: Seq<char>,
    region: Seq<char>,
    account: Seq<char>,
    resource: Seq<char>,
)
    requires
        call_ensures(op_parse_arn, (opts,), answer),
        no_colons(partition, partition, service, region, account),
        opts@.text_field("arn"@) == Some(
            six_fields(seq!['a', 'r', 'n'], partition, service, region, account, resource),
        ),
    ensures
        answer is Ok,
        ({
            let said = answer->Ok_0@;
            &&& said.text_field("partition"@) == Some(partition)
            &&& said.text_field("service"@) == Some(service)
            &&& said.text_field("resource"@) == Some(resource)
            &&& said.text_field("region"@) == if region.len() == 0 {
                None
            } else {
                Some(region)
            }
            &&& said.text_field("account_id"@) == if account.len() == 0 {
                None
            } else {
                Some(account)
            }
            &&& said.text_field("resource_id"@) matches Some(id)
            &&& match said.text_field("resource_type"@) {
                Some(kind) => (resource == kind + seq!['/'] + id || resource == kind + seq![':'] + id)
                    && !kind.contains('/') && !kind.contains(':'),
                None => id == resource && !resource.contains('/') && !resource.contains(':'),
            }
        }),
{
    law_arn_is_read(opts@, partition, service, region, account, resource);
}

/// An ARN that was built of fields without colons is read as these fields.
pub proof fn law_built_arn_is_read(
    opts: Json,
    again: Json,
    built: Result<Json, String>,
    answer: Result<Json, String>,
    service: Seq<char>,
    resource: Seq<char>,
)
    requires
        call_ensures(op_build_arn, (opts,), built),
        call_ensures(op_parse_arn, (again,), answer),
        opts@.text_field("service"@) == Some(service),
        opts@.text_field("resource"@) == Some(resource),
        built is Ok ==> again@.text_field("arn"@) == built->Ok_0@.text_field("arn"@),
        no_colons(
            opts@.text_field("partition"@).unwrap_or("aws"@),
            opts@.text_field("partition"@).unwrap_or("aws"@),
            service,
            opts@.text_field("region"@).unwrap_or(Seq::empty()),
            opts@.text_field("account_id"@).unwrap_or(Seq::empty()),
        ),
    ensures
        answer is Ok,
        ({
            let said = answer->Ok_0@;
            &&& said.text_field("partition"@) == Some(
                opts@.text_field("partition"@).unwrap_or("aws"@),
            )
            &&& said.text_field("service"@) == Some(service)
            &&& said.text_field("resource"@) == Some(resource)
            &&& said.text_field("region"@).unwrap_or(Seq::empty()) == opts@.text_field(
                "region"@,
            ).unwrap_or(Seq::empty())
            &&& said.text_field("account_id"@).unwrap_or(Seq::empty()) == opts@.text_field(
                "account_id"@,
            ).unwrap_or(Seq::empty())
        }),
{
    reveal_strlit("aws");
    assert("aws"@ =~= seq!['a', 'w', 's']);
    law_arn_is_built(opts@);
    let region = opts@.text_field("region"@).unwrap_or(Seq::empty());
    let account = opts@.text_field("account_id"@).unwrap_or(Seq::empty());
    law_arn_is_read(
        again@,
        opts@.text_field("partition"@).unwrap_or(seq!['a', 'w', 's']),
        service,
        region,
        account,
        resource,
    );
    if region.len() == 0 {
        assert(region =~= Seq::<char>::empty());
    }
    if account.len() == 0 {
        assert(account =~= Seq::<char>::empty());
    }
}

/// What is answered of an ARN makes it up; a text that no such fields make up is refused.
pub proof fn law_fields_make_up_the_arn(opts: Json, answer: Result<Json, String>, arn: Seq<char>)
    requires
        call_ensures(op_parse_arn, (opts,), answer),
    ensures
        opts@.text_field("arn"@) is None ==> refused(answer, "missing arn"@),
        opts@.text_field("arn"@) == Some(arn) ==> match answer {
            Ok(said) => arn == six_fields(
                seq!['a', 'r', 'n'],
                said@.text_field("partition"@).unwrap(),
                said@.text_field("service"@).unwrap(),
                said@.text_field("region"@).unwrap_or(Seq::empty()),
                said@.text_field("account_id"@).unwrap_or(Seq::empty()),
                said@.text_field("resource"@).unwrap(),
            ),
            Err(message) => message@
                == "not an ARN (want arn:partition:service:region:account:resource): "@ + arn,
        },
{
    law_other_texts_are_no_arns(opts@, arn);
}

/// A key becomes a path of letters, digits, `-`, `_`, `.`, `~`, slashes and percent signs, and of
/// nothing else: the encoding of its bytes.
pub proof fn law_path_of_a_key(key: &str, path: String)
    requires
        call_ensures(encode_s3_key, (key,), path),
    ensures
        forall|i: int|
            0 <= i < path@.len() ==> unreserved(#[trigger] path@[i] as int) || path@[i] == '%',
        !path@.contains('#') && !path@.contains('?') && !path@.contains('+') && !path@.contains('&')
            && !path@.contains(' '),
        path@ == percent_encoded(encode_utf8(key@)),
{
    law_encoded_path_characters(encode_utf8(key@));
}

/// A path is read as the key whose bytes it stands for, and a key that becomes a path is the one that
/// the path is read as.
pub proof fn law_key_of_a_path(key: &str, path: String, given: &str, back: String)
    requires
        call_ensures(encode_s3_key, (key,), path),
        call_ensures(decode_s3_key, (given,), back),
    ensures
        back@ == decoded_key(given@),
        given@ == path@ ==> back@ == key@,
{
    crate::percent::law_decode_undoes_encode(key@);
}

/// A region is valid where it is one of nine geographies, an area and a number, and not where it is
/// another geography with these. Names in other partitions are told apart by what they begin with.
pub proof fn law_region_with_a_geography(
    opts: Json,
    answer: Result<Json, String>,
    geo: Seq<char>,
    area: Seq<char>,
    number: Seq<char>,
)
    requires
        call_ensures(op_valid_region, (opts,), answer),
        area_text(area),
        number_text(number),
        !geo.contains('-'),
        opts@.text_field_or("region"@, "name"@) == Some(
            geo + seq!['-'] + area + seq!['-'] + number,
        ),
        ({
            let region = geo + seq!['-'] + area + seq!['-'] + number;
            !"cn-"@.is_prefix_of(region) && !"us-gov-"@.is_prefix_of(region)
                && !"us-iso-"@.is_prefix_of(region) && !"us-isob-"@.is_prefix_of(region)
        }),
    ensures
        answer is Ok,
        answer->Ok_0@.text_field("partition"@) == Some("aws"@),
        answer->Ok_0@.bool_field("valid"@) == Some(one_of_nine(geo)),
        answer->Ok_0@.text_field("reason"@) == if one_of_nine(geo) {
            None
        } else {
            Some("unknown geography `"@ + geo + "` (us|eu|ap|sa|ca|me|af|il|mx)"@)
        },
{
    let region = geo + seq!['-'] + area + seq!['-'] + number;
    law_partition(region, region);
    law_standard_names(geo, area, number);
    law_region_is_judged(opts@);
}

/// A name that is found valid is one of the thirteen heads, an area, a hyphen and a number.
pub proof fn law_valid_region_is_made_of(opts: Json, answer: Result<Json, String>, region: Seq<char>)
    requires
        call_ensures(op_valid_region, (opts,), answer),
        opts@.text_field_or("region"@, "name"@) == Some(region),
        answer matches Ok(said) && said@.bool_field("valid"@) == Some(true),
    ensures
        exists|head: Seq<char>, area: Seq<char>, number: Seq<char>|
            #![trigger region_head(head), area_text(area), number_text(number)]
            {
                &&& region == head + area + "-"@ + number
                &&& region_head(head) && area_text(area) && number_text(number)
            },
{
    law_region_is_judged(opts@);
    law_valid_names(region);
}

}
