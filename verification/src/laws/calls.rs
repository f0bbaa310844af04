//! Laws on what the commands and the boundary of the library return.
use vstd::prelude::*;
use vstd::string::*;

use crate::attribute::item_view;
use crate::attribute::AttributeValue;
use crate::attribute::Surface;
use crate::ddb;
use crate::ddb::item_in_text;
use crate::ddb::names_view;
use crate::ddb::optional_names;
use crate::ddb::Rows;
use crate::ddb::TableInfo;
use crate::ddb::Write;
use crate::ffi;
use crate::ffi::Connection;
use crate::ffi::Outcome;
use crate::json::int_json;
use crate::json::Json;
use crate::json::JsonView;
use crate::lambda;
use crate::lambda::function_json;
use crate::lambda::invocation_of;
use crate::lambda::invoke_json;
use crate::lambda::log_text;
use crate::lambda::payload_json;
use crate::lambda::FunctionInfo;
use crate::lambda::Invocation;
use crate::lambda::LambdaCmd;
use crate::lambda::LambdaRequest;
use crate::laws::attributes::law_nested_is_shown;
use crate::laws::attributes::law_nested_is_written;
use crate::laws::services::given;
use crate::laws::services::refused;
use crate::laws::services::text_or;
use crate::laws::tables::shows_item;
use crate::laws::tables::written_as;
use crate::options::opt_view;
use crate::s3;
use crate::s3::head_json;
use crate::s3::put_json;
use crate::s3::Listing;
use crate::s3::Metadata;
use crate::s3::Method;
use crate::sqs;
use crate::sqs::message_json;
use crate::sqs::texts_by_name;
use crate::sqs::Message;
use crate::sts;
use crate::sts::role_json;
use crate::sts::Credentials;
use crate::sts::StsCmd;
use crate::sts::StsRequest;
use crate::text::trimmed;
use crate::wire::json_text;
use crate::wire::parsed_json;
use crate::wire::parsed_json_bytes;

verus! {

/// What the S3 commands show of an object that was stored, looked at or deleted, of a URL that was
/// signed and of a bucket.
pub proof fn law_s3_output(
    bucket: &str,
    key: &str,
    etag: Option<String>,
    version: Option<String>,
    meta: Metadata,
    method: Method,
    expires: u64,
    url: &str,
    date: Option<String>,
    shown: (Json, Json, Json, Json, Json),
)
    requires
        call_ensures(s3::put, (bucket, key, etag, version), shown.0),
        call_ensures(s3::head, (bucket, key, meta), shown.1),
        call_ensures(s3::rm, (bucket, key), shown.2),
        call_ensures(s3::presign, (method, bucket, key, expires, url), shown.3),
        call_ensures(s3::bucket, (version, date), shown.4),
    ensures
        shown.0@ == put_json(bucket@, key@, opt_view(etag), opt_view(version)),
        shown.1@ == head_json(bucket@, key@, meta),
        shown.2@ == JsonView::Object(
            map![
                "bucket"@ => JsonView::Text(bucket@),
                "key"@ => JsonView::Text(key@),
                "deleted"@ => JsonView::Bool(true),
            ],
        ),
        shown.3@ == JsonView::Object(
            map![
                "method"@ => JsonView::Text(
                    if method == Method::Get {
                        "GET"@
                    } else {
                        "PUT"@
                    },
                ),
                "bucket"@ => JsonView::Text(bucket@),
                "key"@ => JsonView::Text(key@),
                "expires_in"@ => int_json(expires as int),
                "url"@ => JsonView::Text(url@),
            ],
        ),
        shown.4@ == JsonView::Object(
            map![
                "name"@ => text_or(version, JsonView::Null),
                "creation_date"@ => text_or(date, JsonView::Null),
            ],
        ),
{
}

/// What the SQS and STS commands show, and what the STS commands ask for: all that they were given. A
/// role without credentials is an error.
pub proof fn law_sqs_and_sts_output(
    id: Option<String>,
    md5: Option<String>,
    sequence: Option<String>,
    creds: Option<Credentials>,
    cmd: StsCmd,
    plan: StsRequest,
    shown: (Json, Json),
    role: Result<Json, String>,
)
    requires
        call_ensures(sqs::send, (id, md5, sequence), shown.0),
        call_ensures(sts::caller_identity, (id, md5, sequence), shown.1),
        call_ensures(sts::assume_role, (creds, id), role),
        call_ensures(sts::dispatch, (cmd,), plan),
    ensures
        shown.0@ == JsonView::Object(
            map![
                "message_id"@ => text_or(id, JsonView::Null),
                "md5_of_body"@ => text_or(md5, JsonView::Null),
                "sequence_number"@ => text_or(sequence, JsonView::Null),
            ],
        ),
        shown.1@ == JsonView::Object(
            map![
                "account"@ => text_or(id, JsonView::Null),
                "arn"@ => text_or(md5, JsonView::Null),
                "user_id"@ => text_or(sequence, JsonView::Null),
            ],
        ),
        match creds {
            Some(c) => role matches Ok(r) && r@ == role_json(c, opt_view(id)),
            None => refused(role, "no credentials in response"@),
        },
        match cmd {
            StsCmd::CallerIdentity => plan is CallerIdentity,
            StsCmd::AssumeRole { role_arn, session, duration, external_id } => plan
                == (StsRequest::AssumeRole { role_arn, session, duration, external_id }),
        },
{
}

/// Messages, attributes, queues, functions and tables are shown one by one, all of them and in their
/// order.
pub proof fn law_lists_are_shown(
    messages: &Vec<Message>,
    attributes: &Vec<(String, String)>,
    texts: &Vec<String>,
    functions: &Vec<FunctionInfo>,
    lines: (Vec<Json>, Vec<Json>, Vec<Json>, Vec<Json>),
    shown: Json,
)
    requires
        call_ensures(sqs::receive, (messages,), lines.0),
        call_ensures(sqs::list, (texts,), lines.1),
        call_ensures(lambda::list, (functions,), lines.2),
        call_ensures(ddb::tables, (texts,), lines.3),
        call_ensures(sqs::attrs, (attributes,), shown),
    ensures
        lines.0@.len() == messages@.len(),
        forall|i: int|
            0 <= i < messages@.len() ==> (#[trigger] lines.0@[i])@ == message_json(messages@[i]),
        lines.1@.len() == texts@.len(),
        forall|i: int|
            0 <= i < texts@.len() ==> (#[trigger] lines.1@[i])@ == JsonView::Object(
                map!["url"@ => JsonView::Text(texts@[i]@)],
            ),
        lines.2@.len() == functions@.len(),
        forall|i: int|
            0 <= i < functions@.len() ==> (#[trigger] lines.2@[i])@ == function_json(functions@[i]),
        lines.3@.len() == texts@.len(),
        forall|i: int|
            0 <= i < texts@.len() ==> (#[trigger] lines.3@[i])@ == JsonView::Object(
                map!["name"@ => JsonView::Text(texts@[i]@)],
            ),
        shown@ == JsonView::Object(texts_by_name(attributes@)),
{
    let a = crate::json::items_view(lines.0@);
    let b = crate::json::items_view(lines.1@);
    let c = crate::json::items_view(lines.2@);
    let d = crate::json::items_view(lines.3@);
    assert(a.len() == lines.0@.len() && b.len() == lines.1@.len());
    assert(c.len() == lines.2@.len() && d.len() == lines.3@.len());
    assert(forall|i: int| 0 <= i < a.len() ==> (#[trigger] lines.0@[i])@ == a[i]);
    assert(forall|i: int| 0 <= i < b.len() ==> (#[trigger] lines.1@[i])@ == b[i]);
    assert(forall|i: int| 0 <= i < c.len() ==> (#[trigger] lines.2@[i])@ == c[i]);
    assert(forall|i: int| 0 <= i < d.len() ==> (#[trigger] lines.3@[i])@ == d[i]);
}

/// A function is invoked as the command says, with the payload that it gives, or the standard input
/// for `-`. A payload that is no JSON is refused before the kind of invocation is looked at.
pub proof fn law_lambda_commands(
    cmd: LambdaCmd,
    plan: LambdaRequest,
    payload: &str,
    name: &str,
    kind: Result<Invocation, String>,
    checked: Result<Invocation, String>,
)
    requires
        call_ensures(lambda::dispatch, (cmd,), plan),
        call_ensures(lambda::invocation_kind, (name,), kind),
        call_ensures(lambda::check_invoke, (payload, name), checked),
    ensures
        match cmd {
            LambdaCmd::Invoke { name: n, payload: p, invocation_type: t, qualifier: q, log_tail: l } => {
                &&& plan matches LambdaRequest::Invoke {
                    name: pn,
                    payload: pp,
                    invocation_type: pt,
                    qualifier: pq,
                    log_tail: pl,
                }
                &&& pn == n && pt == t && pq == q && pl == l
                &&& pp == if p@ == seq!['-'] {
                    None
                } else {
                    Some(p)
                }
            },
            LambdaCmd::List => plan is List,
        },
        match invocation_of(name@) {
            Ok(k) => kind == Ok::<Invocation, String>(k),
            Err(why) => refused(kind, why),
        },
        match parsed_json(payload@) {
            Err(why) => refused(checked, "payload must be JSON: "@ + why),
            Ok(_) => match kind {
                Ok(k) => checked == Ok::<Invocation, String>(k),
                Err(why) => refused(checked, why@),
            },
        },
{
    reveal_strlit("-");
    assert("-"@ =~= seq!['-']);
}

/// What is shown of an invocation.
pub proof fn law_lambda_output(
    status: i32,
    error: Option<String>,
    version: Option<String>,
    log: Option<String>,
    payload: Option<Vec<u8>>,
    shown: Json,
)
    requires
        call_ensures(lambda::invoke, (status, error, version, log, payload), shown),
    ensures
        shown@ == invoke_json(
            status as int,
            opt_view(error),
            opt_view(version),
            log_text(opt_view(log)),
            payload_json(
                match payload {
                    Some(bytes) => Some(bytes@),
                    None => None,
                },
            ),
        ),
{
}

/// What the DynamoDB commands read off their arguments and lines.
pub proof fn law_ddb_input(
    text: &str,
    some: Option<&str>,
    json: &Json,
    item: Result<Vec<(String, AttributeValue)>, String>,
    line: Result<Vec<(String, AttributeValue)>, String>,
    vals: Result<Option<Vec<(String, AttributeValue)>>, String>,
    names: Result<Option<Vec<(String, String)>>, String>,
    write: Result<Write, String>,
)
    requires
        call_ensures(ddb::json_obj_to_av_map, (text,), item),
        call_ensures(ddb::put_line, (text,), line),
        call_ensures(ddb::parse_vals, (some,), vals),
        call_ensures(ddb::parse_names, (some,), names),
        call_ensures(ddb::write_of_json, (json,), write),
    ensures
        match item_in_text(text@) {
            Ok(fields) => item matches Ok(i) && item_view(i@) == fields,
            Err(why) => refused(item, why),
        },
        match item_in_text(trimmed(text@)) {
            Ok(fields) => line matches Ok(i) && item_view(i@) == fields,
            Err(why) => refused(line, why),
        },
        match some {
            None => vals matches Ok(v) && v is None,
            Some(s) => match item_in_text(s@) {
                Ok(fields) => vals matches Ok(v) && v matches Some(i) && item_view(i@) == fields,
                Err(why) => refused(vals, why),
            },
        },
        match some {
            None => names matches Ok(n) && n is None,
            Some(s) => match optional_names(Some(s@)) {
                Ok(found) => names matches Ok(n) && n matches Some(list) && Some(names_view(list@))
                    == found,
                Err(why) => refused(names, why),
            },
        },
        match json@ {
            JsonView::Object(fields) => if fields.dom().contains("_delete"@) {
                match fields["_delete"@] {
                    JsonView::Object(key) => write matches Ok(Write::Delete(k)) && written_as(
                        item_view(k@),
                        key,
                    ),
                    _ => refused(write, "_delete must be an object"@),
                }
            } else {
                write matches Ok(Write::Put(i)) && written_as(item_view(i@), fields)
            },
            _ => refused(
                write,
                "each NDJSON line must be a JSON object (item or {_delete: key})"@,
            ),
        },
{
    if let JsonView::Object(fields) = json@ {
        law_nested_is_written(Seq::empty(), fields);
        if let JsonView::Object(key) = fields["_delete"@] {
            law_nested_is_written(Seq::empty(), key);
        }
    }
    if let Some(s) = some {
        crate::laws::commands::law_names_in_text(s@);
    }
}

/// What the DynamoDB commands show of an item and of a table, and where something was done.
pub proof fn law_ddb_output(
    item: Option<Vec<(String, AttributeValue)>>,
    table: Option<TableInfo>,
    shown: Json,
    done: Json,
    described: Result<Json, String>,
)
    requires
        call_ensures(ddb::get, (item,), shown),
        call_ensures(ddb::done, (), done),
        call_ensures(ddb::describe, (table,), described),
    ensures
        match item {
            Some(fields) => shows_item(shown@, item_view(fields@), Surface::Command),
            None => shown@ == JsonView::Null,
        },
        done@ == JsonView::Object(map!["ok"@ => JsonView::Bool(true)]),
        match table {
            Some(t) => described matches Ok(d) && d@ == ddb::table_json(t),
            None => refused(described, "no table in response"@),
        },
{
    if let Some(fields) = item {
        law_nested_is_shown(Seq::empty(), item_view(fields@), Surface::Command);
    }
}

/// Without a limit there is none on the rows of a query or a scan, nor on a listing; a limit on rows
/// is the one that is given, but at least one.
pub proof fn law_limits(
    small: Option<i32>,
    limit: Option<usize>,
    query: Rows,
    scan: Rows,
    listing: Listing,
)
    requires
        call_ensures(Rows::of_query, (small,), query),
        call_ensures(Rows::of_scan, (limit,), scan),
        call_ensures(Listing::new, (limit,), listing),
    ensures
        match small {
            None => query.quota.left is None,
            Some(n) => query.quota.left matches Some(left) && left == if n < 1 {
                1
            } else {
                n as int
            },
        },
        match limit {
            None => scan.quota.left is None && listing.quota.left is None,
            Some(n) => {
                &&& scan.quota.left == Some(
                    if n == 0 {
                        1
                    } else {
                        n
                    },
                )
                &&& listing.quota.left == Some(n)
            },
        },
{
}

/// Options are the JSON that was handed over, and null where there is none or it is none.
pub proof fn law_options_are_read(args: Option<&[u8]>, read: Option<Json>, opts: Json, kept: Json)
    requires
        call_ensures(ffi::read_options, (args,), opts),
        call_ensures(ffi::options_or_null, (read,), kept),
    ensures
        opts@ == match args {
            Some(bytes) => match parsed_json_bytes(bytes@) {
                Some(json) => json,
                None => JsonView::Null,
            },
            None => JsonView::Null,
        },
        kept@ == match read {
            Some(json) => json@,
            None => JsonView::Null,
        },
{
}

/// An answer is handed back as it is, and a failure as an object with its message under `error`; what
/// did not come to an end is told in words. The text is that of the JSON.
pub proof fn law_outcome_is_handed_back(outcome: Outcome, json: Json, text: String, version: &str, pkg: Json)
    requires
        call_ensures(ffi::reply, (outcome,), json),
        call_ensures(ffi::reply_text, (outcome,), text),
        call_ensures(ffi::pkg_version, (version,), pkg),
    ensures
        match outcome {
            Outcome::Answered(answer) => json@ == answer@,
            Outcome::Failed(message) => json@ == JsonView::Object(
                map!["error"@ => JsonView::Text(message@)],
            ),
            Outcome::Panicked => json@ == JsonView::Object(
                map!["error"@ => JsonView::Text("stryke-aws handler panicked"@)],
            ),
        },
        text@ == json_text(json@),
        pkg@ == JsonView::Object(map!["version"@ => JsonView::Text(version@)]),
{
}

/// A text, or else the next one.
pub open spec fn or_else(first: Option<Seq<char>>, second: Option<Seq<char>>) -> Option<Seq<char>> {
    if first is Some {
        first
    } else {
        second
    }
}

/// The region is the one in the options, else the first and else the second of the environment, and
/// else `us-east-1`; the profile is that of the options; the endpoint is the one in the options and
/// else that of the environment, but for a subscription, whose options mean another endpoint.
pub proof fn law_connection(
    opts: &Json,
    first: Option<String>,
    second: Option<String>,
    url: Option<String>,
    region: String,
    usual: Connection,
    sub: Connection,
)
    requires
        call_ensures(ffi::region_for, (opts, first, second), region),
        call_ensures(ffi::connection_for, (opts, first, second, url), usual),
        call_ensures(ffi::subscribe_connection_for, (opts, first, second, url), sub),
    ensures
        ({
            let named = or_else(given(opts@, "region"@), or_else(opt_view(first), opt_view(second)));
            region@ == match named {
                Some(name) => name,
                None => "us-east-1"@,
            }
        }),
        usual.region@ == region@ && sub.region@ == region@,
        opt_view(usual.profile) == given(opts@, "profile"@),
        opt_view(sub.profile) == given(opts@, "profile"@),
        opt_view(usual.endpoint) == or_else(given(opts@, "endpoint"@), opt_view(url)),
        opt_view(sub.endpoint) == opt_view(url),
{
}

}
