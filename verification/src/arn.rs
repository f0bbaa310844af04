//! Amazon Resource Names: `arn:partition:service:region:account-id:resource`.
use vstd::prelude::*;
use vstd::string::*;

use crate::glob::glob;
use crate::glob::iam_glob_match;
use crate::json::outcome;
use crate::json::put;
use crate::json::text_or_null;
use crate::json::Json;
use crate::json::JsonView;
use crate::split::cut_either;
use crate::split::fields_up_to;
use crate::split::lacks;
use crate::split::lemma_cut_back;
use crate::split::lemma_next_field;
use crate::split::split_either;
use crate::split::split_up_to;
use crate::split::strs_view;
use crate::text::same;
use crate::validate::verdict;
use crate::validate::verdict_fields;
use vstd::utf8::encode_utf8;

verus! {

/// The six fields of an ARN, `arn` itself first. Only the last one, the resource, may hold a
/// colon.
pub open spec fn arn_fields(arn: Seq<char>) -> Seq<Seq<char>> {
    fields_up_to(arn, ":"@, 6)
}

/// The ARN with these fields.
pub open spec fn arn_text(
    partition: Seq<char>,
    service: Seq<char>,
    region: Seq<char>,
    account: Seq<char>,
    resource: Seq<char>,
) -> Seq<char> {
    "arn:"@ + partition + ":"@ + service + ":"@ + region + ":"@ + account + ":"@ + resource
}

/// A text, or null in place of an empty one.
pub open spec fn null_if_empty(text: Seq<char>) -> JsonView {
    if text.len() == 0 {
        JsonView::Null
    } else {
        JsonView::Text(text)
    }
}

/// What an ARN says, field by field. The resource is cut at its first `/` or `:`.
pub open spec fn arn_json(fields: Seq<Seq<char>>) -> JsonView {
    let resource = fields[5];
    let (kind, id) = match cut_either(resource, '/', ':') {
        Some((t, i)) => (Some(t), i),
        None => (None, resource),
    };
    JsonView::Object(
        map![
            "partition"@ => JsonView::Text(fields[1]),
            "service"@ => JsonView::Text(fields[2]),
            "region"@ => null_if_empty(fields[3]),
            "account_id"@ => null_if_empty(fields[4]),
            "resource"@ => JsonView::Text(resource),
            "resource_type"@ => text_or_null(kind),
            "resource_id"@ => JsonView::Text(id),
        ],
    )
}

/// What `op_parse_arn` answers.
pub open spec fn parse_arn(opts: JsonView) -> Result<JsonView, Seq<char>> {
    match opts.text_field("arn"@) {
        None => Err("missing arn"@),
        Some(arn) => {
            let fields = arn_fields(arn);
            if fields.len() < 6 || fields[0] != "arn"@ {
                Err(
                    "not an ARN (want arn:partition:service:region:account:resource): "@ + arn,
                )
            } else {
                Ok(arn_json(fields))
            }
        },
    }
}

/// What `op_build_arn` answers.
pub open spec fn build_arn(opts: JsonView) -> Result<JsonView, Seq<char>> {
    let partition = opts.text_field("partition"@).unwrap_or("aws"@);
    let region = opts.text_field("region"@).unwrap_or(""@);
    let account = opts.text_field("account_id"@).unwrap_or(""@);
    match (opts.text_field("service"@), opts.text_field("resource"@)) {
        (None, _) => Err("missing service"@),
        (Some(_), None) => Err("missing resource"@),
        (Some(service), Some(resource)) => Ok(
            JsonView::Object(
                map![
                    "arn"@ => JsonView::Text(
                        arn_text(partition, service, region, account, resource),
                    ),
                ],
            ),
        ),
    }
}

/// Why a text is not an ARN, if it is not.
pub open spec fn arn_fault(arn: Seq<char>) -> Option<Seq<char>> {
    let fields = arn_fields(arn);
    if fields.len() < 6 {
        Some(
            "must have 6 colon-delimited fields (arn:partition:service:region:account:resource)"@,
        )
    } else if fields[0] != "arn"@ {
        Some("must begin with the literal `arn`"@)
    } else if fields[1].len() == 0 {
        Some("partition (field 2) must not be empty"@)
    } else if fields[2].len() == 0 {
        Some("service (field 3) must not be empty"@)
    } else if fields[5].len() == 0 {
        Some("resource (field 6) must not be empty"@)
    } else {
        None
    }
}

/// What `op_valid_arn` answers.
pub open spec fn valid_arn(opts: JsonView) -> Result<JsonView, Seq<char>> {
    match opts.text_field_or("arn"@, "value"@) {
        None => Err("missing arn"@),
        Some(arn) => Ok(JsonView::Object(verdict("arn"@, arn, arn_fault(arn)))),
    }
}

/// What `op_arn_matches` answers.
pub open spec fn arn_matches(opts: JsonView) -> Result<JsonView, Seq<char>> {
    match (opts.text_field("pattern"@), opts.text_field_or("arn"@, "value"@)) {
        (None, _) => Err("missing pattern"@),
        (Some(_), None) => Err("missing arn"@),
        (Some(pattern), Some(arn)) => Ok(
            JsonView::Object(
                map![
                    "pattern"@ => JsonView::Text(pattern),
                    "arn"@ => JsonView::Text(arn),
                    "matches"@ => JsonView::Bool(glob(encode_utf8(pattern), encode_utf8(arn))),
                ],
            ),
        ),
    }
}

/// The fields of an ARN make it up again.
pub proof fn lemma_arn_fields(arn: Seq<char>)
    requires
        arn_fields(arn).len() >= 6,
        arn_fields(arn)[0] == "arn"@,
    ensures
        arn_fields(arn).len() == 6,
        arn == arn_text(
            arn_fields(arn)[1],
            arn_fields(arn)[2],
            arn_fields(arn)[3],
            arn_fields(arn)[4],
            arn_fields(arn)[5],
        ),
        forall|i: int| 0 <= i < 5 ==> lacks(#[trigger] arn_fields(arn)[i], ':'),
{
    reveal_strlit(":");
    reveal_strlit("arn:");
    reveal_strlit("arn");
    assert(":"@ =~= seq![':']);
    let f = arn_fields(arn);
    let r1 = lemma_next_field(arn, ':', 6);
    let r2 = lemma_next_field(r1, ':', 5);
    let r3 = lemma_next_field(r2, ':', 4);
    let r4 = lemma_next_field(r3, ':', 3);
    let r5 = lemma_next_field(r4, ':', 2);
    assert(fields_up_to(r5, ":"@, 1) =~= seq![r5]);
    assert(f.skip(1).skip(1).skip(1).skip(1).skip(1) =~= f.skip(5));
    assert(f.skip(5)[0] == r5);
    assert("arn:"@ =~= "arn"@ + ":"@);
    assert(arn =~= arn_text(f[1], f[2], f[3], f[4], f[5]));
}

/// The text that was built from fields is taken apart into them.
pub proof fn lemma_arn_text(
    partition: Seq<char>,
    service: Seq<char>,
    region: Seq<char>,
    account: Seq<char>,
    resource: Seq<char>,
)
    requires
        lacks(partition, ':'),
        lacks(service, ':'),
        lacks(region, ':'),
        lacks(account, ':'),
    ensures
        arn_fields(arn_text(partition, service, region, account, resource)) == seq![
            "arn"@,
            partition,
            service,
            region,
            account,
            resource,
        ],
{
    reveal_strlit(":");
    reveal_strlit("arn:");
    reveal_strlit("arn");
    let c = seq![':'];
    assert(":"@ =~= c);
    let r5 = resource;
    let r4 = account + c + r5;
    let r3 = region + c + r4;
    let r2 = service + c + r3;
    let r1 = partition + c + r2;
    let arn = arn_text(partition, service, region, account, resource);
    assert(arn =~= "arn"@ + c + r1);
    assert(lacks("arn"@, ':'));
    lemma_cut_back("arn"@, ':', r1);
    lemma_cut_back(partition, ':', r2);
    lemma_cut_back(service, ':', r3);
    lemma_cut_back(region, ':', r4);
    lemma_cut_back(account, ':', r5);
    reveal_with_fuel(fields_up_to, 6);
    assert(arn_fields(arn) =~= seq!["arn"@, partition, service, region, account, resource]);
}

/// `build_arn` undoes `parse_arn`: built from what an ARN says, it is that ARN again.
pub proof fn law_build_undoes_parse(arn: Seq<char>, opts: JsonView)
    requires
        opts.text_field("arn"@) == Some(arn),
        parse_arn(opts) is Ok,
    ensures
        build_arn(parse_arn(opts)->Ok_0) == Ok::<JsonView, Seq<char>>(
            JsonView::Object(map!["arn"@ => JsonView::Text(arn)]),
        ),
{
    lemma_arn_fields(arn);
    lemma_arn_names();
    let f = arn_fields(arn);
    reveal_strlit("");
    let said = parse_arn(opts)->Ok_0;
    assert(said.text_field("partition"@) == Some(f[1]));
    assert(said.text_field("service"@) == Some(f[2]));
    assert(said.text_field("resource"@) == Some(f[5]));
    assert(said.text_field("region"@).unwrap_or(""@) =~= f[3]);
    assert(said.text_field("account_id"@).unwrap_or(""@) =~= f[4]);
}

/// `parse_arn` undoes `build_arn`: the fields come back as they went in, so long as none but the
/// resource holds a colon.
pub proof fn law_parse_undoes_build(opts: JsonView)
    requires
        build_arn(opts) is Ok,
        lacks(opts.text_field("partition"@).unwrap_or("aws"@), ':'),
        lacks(opts.text_field("service"@).unwrap(), ':'),
        lacks(opts.text_field("region"@).unwrap_or(""@), ':'),
        lacks(opts.text_field("account_id"@).unwrap_or(""@), ':'),
    ensures
        ({
            let back = parse_arn(build_arn(opts)->Ok_0);
            &&& back is Ok
            &&& back->Ok_0.text_field("partition"@) == Some(
                opts.text_field("partition"@).unwrap_or("aws"@),
            )
            &&& back->Ok_0.text_field("service"@) == opts.text_field("service"@)
            &&& back->Ok_0.text_field("region"@).unwrap_or(""@) == opts.text_field(
                "region"@,
            ).unwrap_or(""@)
            &&& back->Ok_0.text_field("account_id"@).unwrap_or(""@) == opts.text_field(
                "account_id"@,
            ).unwrap_or(""@)
            &&& back->Ok_0.text_field("resource"@) == opts.text_field("resource"@)
        }),
{
    let partition = opts.text_field("partition"@).unwrap_or("aws"@);
    let service = opts.text_field("service"@).unwrap();
    let region = opts.text_field("region"@).unwrap_or(""@);
    let account = opts.text_field("account_id"@).unwrap_or(""@);
    let resource = opts.text_field("resource"@).unwrap();
    let arn = arn_text(partition, service, region, account, resource);
    lemma_arn_text(partition, service, region, account, resource);
    lemma_arn_names();
    reveal_strlit("");
    let built = build_arn(opts)->Ok_0;
    assert(built.text_field("arn"@) == Some(arn));
    let back = parse_arn(built)->Ok_0;
    assert(back.text_field("region"@).unwrap_or(""@) =~= region);
    assert(back.text_field("account_id"@).unwrap_or(""@) =~= account);
}

/// The names in an answer about an ARN differ.
proof fn lemma_arn_names()
    ensures
        "partition"@.len() == 9,
        "service"@.len() == 7,
        "region"@.len() == 6,
        "account_id"@.len() == 10,
        "resource"@.len() == 8,
        "resource_type"@.len() == 13,
        "resource_id"@.len() == 11,
{
    reveal_strlit("partition");
    reveal_strlit("service");
    reveal_strlit("region");
    reveal_strlit("account_id");
    reveal_strlit("resource");
    reveal_strlit("resource_type");
    reveal_strlit("resource_id");
}

/// An ARN is valid just if it can be parsed and its partition, service and resource are not
/// empty.
pub proof fn law_valid_arn_parses(arn: Seq<char>)
    ensures
        arn_fault(arn) is None <==> {
            let fields = arn_fields(arn);
            &&& parse_arn(JsonView::Object(map!["arn"@ => JsonView::Text(arn)])) is Ok
            &&& fields[1].len() > 0
            &&& fields[2].len() > 0
            &&& fields[5].len() > 0
        },
{
    let opts = JsonView::Object(map!["arn"@ => JsonView::Text(arn)]);
    assert(opts.text_field("arn"@) == Some(arn));
}

/// A text, or null in place of an empty one.
fn text_unless_empty(text: &str) -> (json: Json)
    ensures
        json@ == null_if_empty(text@),
{
    if same(text, "") {
        proof {
            reveal_strlit("");
        }
        Json::Null
    } else {
        proof {
            reveal_strlit("");
            if text@.len() == 0 {
                assert(text@ =~= ""@);
            }
        }
        Json::text(text)
    }
}

/// Parses the ARN `arn` into its fields.
pub fn op_parse_arn(opts: Json) -> (answer: Result<Json, String>)
    ensures
        outcome(answer) == parse_arn(opts@),
{
    let arn = match opts.text_at("arn") {
        Some(arn) => arn,
        None => return Err("missing arn".to_owned()),
    };
    proof {
        reveal_strlit(":");
        reveal_strlit("/");
        assert(":"@ =~= seq![':']);
    }
    let fields = split_up_to(arn, ":", 6);
    let ghost views = strs_view(fields@);
    if fields.len() < 6 || !same(fields[0], "arn") {
        return Err(
            "not an ARN (want arn:partition:service:region:account:resource): ".to_owned().concat(
                arn,
            ),
        );
    }
    let resource = fields[5];
    let (kind, id): (Option<&str>, &str) = match split_either(resource, "/", ":") {
        Some((t, i)) => (Some(t), i),
        None => (None, resource),
    };
    let mut out: Vec<(String, Json)> = Vec::new();
    put(&mut out, "partition", Json::text(fields[1]));
    put(&mut out, "service", Json::text(fields[2]));
    put(&mut out, "region", text_unless_empty(fields[3]));
    put(&mut out, "account_id", text_unless_empty(fields[4]));
    put(&mut out, "resource", Json::text(resource));
    put(&mut out, "resource_type", Json::text_or_null(kind));
    put(&mut out, "resource_id", Json::text(id));
    Ok(Json::Object(out))
}

/// Builds an ARN from its fields: `service` and `resource`, and where given `partition` (else
/// `aws`), `region` and `account_id` (else empty).
pub fn op_build_arn(opts: Json) -> (answer: Result<Json, String>)
    ensures
        outcome(answer) == build_arn(opts@),
{
    let partition = opts.text_at("partition").unwrap_or("aws");
    let service = match opts.text_at("service") {
        Some(service) => service,
        None => return Err("missing service".to_owned()),
    };
    let region = opts.text_at("region").unwrap_or("");
    let account = opts.text_at("account_id").unwrap_or("");
    let resource = match opts.text_at("resource") {
        Some(resource) => resource,
        None => return Err("missing resource".to_owned()),
    };
    let arn = "arn:".to_owned().concat(partition).concat(":").concat(service).concat(":").concat(
        region,
    ).concat(":").concat(account).concat(":").concat(resource);
    let mut out: Vec<(String, Json)> = Vec::new();
    put(&mut out, "arn", Json::Text(arn));
    Ok(Json::Object(out))
}

/// Says whether the text `arn` (or `value`) has the structure of an ARN, and if not, why.
pub fn op_valid_arn(opts: Json) -> (answer: Result<Json, String>)
    ensures
        outcome(answer) == valid_arn(opts@),
{
    let arn = match opts.text_at_either("arn", "value") {
        Some(arn) => arn,
        None => return Err("missing arn".to_owned()),
    };
    proof {
        reveal_strlit(":");
        reveal_strlit("");
    }
    let fields = split_up_to(arn, ":", 6);
    let ghost views = strs_view(fields@);
    let reason: Option<&str> = if fields.len() < 6 {
        Some("must have 6 colon-delimited fields (arn:partition:service:region:account:resource)")
    } else if !same(fields[0], "arn") {
        Some("must begin with the literal `arn`")
    } else if fields[1].is_empty() {
        Some("partition (field 2) must not be empty")
    } else if fields[2].is_empty() {
        Some("service (field 3) must not be empty")
    } else if fields[5].is_empty() {
        Some("resource (field 6) must not be empty")
    } else {
        None
    };
    Ok(Json::Object(verdict_fields("arn", arn, reason)))
}

/// Says whether the ARN `arn` (or `value`) matches the IAM policy `pattern`.
pub fn op_arn_matches(opts: Json) -> (answer: Result<Json, String>)
    ensures
        outcome(answer) == arn_matches(opts@),
{
    let pattern = match opts.text_at("pattern") {
        Some(pattern) => pattern,
        None => return Err("missing pattern".to_owned()),
    };
    let arn = match opts.text_at_either("arn", "value") {
        Some(arn) => arn,
        None => return Err("missing arn".to_owned()),
    };
    let matches = iam_glob_match(pattern.as_bytes(), arn.as_bytes());
    let mut out: Vec<(String, Json)> = Vec::new();
    put(&mut out, "pattern", Json::text(pattern));
    put(&mut out, "arn", Json::text(arn));
    put(&mut out, "matches", Json::Bool(matches));
    Ok(Json::Object(out))
}

}
