//! Laws on what the commands ask for, and on what they show.
use vstd::prelude::*;
use vstd::string::*;

use crate::attribute::av_of;
use crate::attribute::item_of;
use crate::bytes::base64_bytes;
use crate::bytes::lossy;
use crate::bytes::utf8_text;
use crate::ddb;
use crate::ddb::item_in_text;
use crate::ddb::named;
use crate::ddb::optional_item;
use crate::ddb::optional_names;
use crate::ddb::table_json;
use crate::ddb::typed;
use crate::ddb::write_on_line;
use crate::ddb::DdbCmd;
use crate::ddb::DdbRequest;
use crate::ddb::TableInfo;
use crate::ddb::WriteView;
use crate::json::int_json;
use crate::json::JsonView;
use crate::lambda::function_json;
use crate::lambda::invocation_of;
use crate::lambda::invoke_json;
use crate::lambda::log_text;
use crate::lambda::payload_json;
use crate::lambda::FunctionInfo;
use crate::lambda::Invocation;
use crate::laws::arns::law_uri_is_read;
use crate::laws::strings::law_case;
use crate::laws::strings::law_without_leading;
use crate::laws::strings::law_without_trailing;
use crate::options::opt_view;
use crate::options::present;
use crate::s3;
use crate::s3::head_json;
use crate::s3::object_json;
use crate::s3::page_entries;
use crate::s3::prefix_json;
use crate::s3::put_json;
use crate::s3::unquoted;
use crate::s3::Metadata;
use crate::s3::Method;
use crate::s3::ObjectEntry;
use crate::s3::ObjectPage;
use crate::s3::S3Cmd;
use crate::s3::S3Request;
use crate::sqs;
use crate::sqs::message_json;
use crate::sqs::texts_by_name;
use crate::sqs::Message;
use crate::sqs::SqsCmd;
use crate::sqs::SqsRequest;
use crate::sts::role_json;
use crate::sts::Credentials;
use crate::text::trimmed;
use crate::wire::parsed_json;
use crate::wire::parsed_json_bytes;

verus! {

/// Two texts that are the same in upper case.
pub open spec fn same_in_capitals(text: Seq<char>, capitals: Seq<char>) -> bool {
    text.len() == capitals.len() && forall|i: int|
        0 <= i < text.len() ==> {
            let n = #[trigger] text[i] as int;
            capitals[i] as int == if 97 <= n <= 122 {
                n - 32
            } else {
                n
            }
        }
}

proof fn lemma_capitals(text: Seq<char>, capitals: Seq<char>)
    ensures
        s3::upper_case(text) == capitals <==> same_in_capitals(text, capitals),
{
    if same_in_capitals(text, capitals) {
        assert forall|i: int| 0 <= i < text.len() implies s3::upper_case(text)[i]
            == capitals[i] by {
            law_case(text[i]);
            assert(capitals[i] as int == s3::upper_case(text)[i] as int);
        }
        assert(s3::upper_case(text) =~= capitals);
    }
    if s3::upper_case(text) == capitals {
        assert forall|i: int| 0 <= i < text.len() implies {
            let n = #[trigger] text[i] as int;
            capitals[i] as int == if 97 <= n <= 122 {
                n - 32
            } else {
                n
            }
        } by {
            law_case(text[i]);
            assert(s3::upper_case(text)[i] == capitals[i]);
        }
    }
}

/// What the S3 commands ask for of an object in a bucket: each names the two as its URI does, and
/// keeps what else it was given. Getting, putting and deleting need a key; a listing without one is
/// of the whole bucket.
pub proof fn law_s3_commands(
    cmd: S3Cmd,
    plan: Result<S3Request, String>,
    bucket: Seq<char>,
    key: Seq<char>,
)
    requires
        call_ensures(s3::dispatch, (cmd,), plan),
        !bucket.contains('/'),
        match cmd {
            S3Cmd::Ls { uri, .. } => uri@ == "s3://"@ + bucket + seq!['/'] + key,
            S3Cmd::Get { uri, .. } => uri@ == "s3://"@ + bucket + seq!['/'] + key,
            S3Cmd::Put { uri, .. } => uri@ == "s3://"@ + bucket + seq!['/'] + key,
            S3Cmd::Head { uri } => uri@ == "s3://"@ + bucket + seq!['/'] + key,
            S3Cmd::Rm { uri } => uri@ == "s3://"@ + bucket + seq!['/'] + key,
            S3Cmd::Presign { uri, .. } => uri@ == "s3://"@ + bucket + seq!['/'] + key,
            S3Cmd::Buckets => true,
        },
    ensures
        match cmd {
            S3Cmd::Ls { page_size, limit, delimiter, .. } => {
                &&& plan matches Ok(S3Request::List { bucket: b, prefix, delimiter: d, page_size: p, limit: l })
                &&& b@ == bucket && d == delimiter && p == page_size && l == limit
                &&& match prefix {
                    Some(text) => text@ == key && key.len() > 0,
                    None => key.len() == 0,
                }
            },
            S3Cmd::Get { output, .. } => if key.len() == 0 {
                plan matches Err(why) && why@ == "get needs a full object URI (s3://bucket/key)"@
            } else {
                plan matches Ok(S3Request::Get { bucket: b, key: k, output: o }) && b@ == bucket && k@
                    == key && o == output
            },
            S3Cmd::Put { input, content_type, cache_control, buffered, .. } => if key.len() == 0 {
                plan matches Err(why) && why@ == "put needs a full object URI (s3://bucket/key)"@
            } else {
                &&& plan matches Ok(
                    S3Request::Put {
                        bucket: b,
                        key: k,
                        input: i,
                        streamed,
                        content_type: ct,
                        cache_control: cc,
                    },
                )
                &&& b@ == bucket && k@ == key && i == input && ct == content_type && cc
                    == cache_control
                &&& streamed <==> !buffered && input@ != "-"@
            },
            S3Cmd::Head { .. } => plan matches Ok(S3Request::Head { bucket: b, key: k }) && b@
                == bucket && k@ == key,
            S3Cmd::Rm { .. } => if key.len() == 0 {
                plan matches Err(why) && why@ == "rm needs a full object URI (s3://bucket/key)"@
            } else {
                plan matches Ok(S3Request::Delete { bucket: b, key: k }) && b@ == bucket && k@ == key
            },
            S3Cmd::Presign { method, expires, .. } => if expires > 604800 {
                plan matches Err(why) && why@ == "invalid expires: "@
                    + "`expires_in` must be no longer than one week"@
            } else if same_in_capitals(method@, "GET"@) {
                plan matches Ok(S3Request::Presign { bucket: b, key: k, method: m, expires: e }) && b@
                    == bucket && k@ == key && m == Method::Get && e == expires
            } else if same_in_capitals(method@, "PUT"@) {
                plan matches Ok(S3Request::Presign { bucket: b, key: k, method: m, expires: e }) && b@
                    == bucket && k@ == key && m == Method::Put && e == expires
            } else {
                plan is Err
            },
            S3Cmd::Buckets => plan == Ok::<S3Request, String>(S3Request::Buckets),
        },
{
    law_uri_is_read(JsonView::Null, bucket, key);
    reveal_strlit("GET");
    reveal_strlit("PUT");
    assert("GET"@[0] == 'G' && "PUT"@[0] == 'P');
    if let S3Cmd::Presign { method, .. } = cmd {
        lemma_capitals(method@, "GET"@);
        lemma_capitals(method@, "PUT"@);
    }
}

/// A command whose URI does not begin with `s3://` asks for nothing.
pub proof fn law_s3_commands_need_a_uri(cmd: S3Cmd, plan: Result<S3Request, String>, uri: Seq<char>)
    requires
        call_ensures(s3::dispatch, (cmd,), plan),
        !"s3://"@.is_prefix_of(uri),
        match cmd {
            S3Cmd::Ls { uri: u, .. } => u@ == uri,
            S3Cmd::Get { uri: u, .. } => u@ == uri,
            S3Cmd::Put { uri: u, .. } => u@ == uri,
            S3Cmd::Head { uri: u } => u@ == uri,
            S3Cmd::Rm { uri: u } => u@ == uri,
            S3Cmd::Presign { uri: u, .. } => u@ == uri,
            S3Cmd::Buckets => false,
        },
    ensures
        plan matches Err(why) && why@ == "expected `s3://bucket/key…`, got `"@ + uri + "`"@,
{
}

/// A text loses the quotation marks at its ends, all of them, and nothing else.
pub proof fn law_unquoted(text: Seq<char>) -> (range: (int, int))
    ensures
        unquoted(None) is None,
        0 <= range.0 <= range.1 <= text.len(),
        unquoted(Some(text)) == Some(text.subrange(range.0, range.1)),
        forall|i: int|
            (0 <= i < range.0 || range.1 <= i < text.len()) ==> #[trigger] text[i] == '"',
        range.0 < range.1 ==> text[range.0] != '"' && text[range.1 - 1] != '"',
{
    let n = law_without_leading(text, '"');
    let inner = text.skip(n);
    let m = law_without_trailing(inner, '"');
    assert(inner.take(m) =~= text.subrange(n, n + m));
    assert forall|i: int| (0 <= i < n || n + m <= i < text.len()) implies #[trigger] text[i]
        == '"' by {
        if i >= n + m {
            assert(inner[i - n] == text[i]);
        }
    }
    if m > 0 {
        assert(inner[0] == text[n]);
        assert(inner[m - 1] == text[n + m - 1]);
    }
    (n, n + m)
}

proof fn lemma_names()
    ensures
        "type"@.len() == 4,
        "size"@.len() == 4,
        "etag"@.len() == 4,
        "type"@ != "size"@,
        "type"@ != "etag"@,
        "size"@ != "etag"@,
        "key"@.len() == 3,
        "arn"@.len() == 3,
        "key"@ != "arn"@,
        "last_modified"@.len() == 13,
        "cache_control"@.len() == 13,
        "last_modified"@ != "cache_control"@,
        "storage_class"@.len() == 13,
        "storage_class"@ != "cache_control"@,
        "storage_class"@ != "last_modified"@,
        "content_type"@.len() == 12,
        "bucket"@.len() == 6,
        "status"@.len() == 6,
        "bucket"@ != "status"@,
        "version_id"@.len() == 10,
        "item_count"@.len() == 10,
        "key_schema"@.len() == 10,
        "attributes"@.len() == 10,
        "size_bytes"@.len() == 10,
        "message_id"@.len() == 10,
        "expiration"@.len() == 10,
        "item_count"@ != "key_schema"@,
        "item_count"@ != "attributes"@,
        "item_count"@ != "size_bytes"@,
        "key_schema"@ != "attributes"@,
        "key_schema"@ != "size_bytes"@,
        "attributes"@ != "size_bytes"@,
        "name"@.len() == 4,
        "body"@.len() == 4,
        "name"@ != "body"@,
        "md5"@.len() == 3,
        "receipt_handle"@.len() == 14,
        "runtime"@.len() == 7,
        "handler"@.len() == 7,
        "runtime"@ != "handler"@,
        "payload"@.len() == 7,
        "memory_mb"@.len() == 9,
        "timeout_s"@.len() == 9,
        "memory_mb"@ != "timeout_s"@,
        "status_code"@.len() == 11,
        "function_error"@.len() == 14,
        "executed_version"@.len() == 16,
        "log_tail"@.len() == 8,
        "access_key_id"@.len() == 13,
        "session_token"@.len() == 13,
        "access_key_id"@ != "session_token"@,
        "secret_access_key"@.len() == 17,
        "assumed_role_arn"@.len() == 16,
{
    reveal_strlit("type");
    reveal_strlit("size");
    reveal_strlit("etag");
    reveal_strlit("key");
    reveal_strlit("arn");
    reveal_strlit("last_modified");
    reveal_strlit("cache_control");
    reveal_strlit("storage_class");
    reveal_strlit("content_type");
    reveal_strlit("bucket");
    reveal_strlit("status");
    reveal_strlit("version_id");
    reveal_strlit("item_count");
    reveal_strlit("key_schema");
    reveal_strlit("attributes");
    reveal_strlit("size_bytes");
    reveal_strlit("message_id");
    reveal_strlit("expiration");
    reveal_strlit("name");
    reveal_strlit("body");
    reveal_strlit("md5");
    reveal_strlit("receipt_handle");
    reveal_strlit("runtime");
    reveal_strlit("handler");
    reveal_strlit("payload");
    reveal_strlit("memory_mb");
    reveal_strlit("timeout_s");
    reveal_strlit("status_code");
    reveal_strlit("function_error");
    reveal_strlit("executed_version");
    reveal_strlit("log_tail");
    reveal_strlit("access_key_id");
    reveal_strlit("session_token");
    reveal_strlit("secret_access_key");
    reveal_strlit("assumed_role_arn");
    assert("type"@[0] == 't' && "size"@[0] == 's' && "etag"@[0] == 'e');
    assert("key"@[0] == 'k' && "arn"@[0] == 'a');
    assert("last_modified"@[0] == 'l' && "cache_control"@[0] == 'c' && "storage_class"@[0] == 's');
    assert("bucket"@[0] == 'b' && "status"@[0] == 's');
    assert("item_count"@[0] == 'i' && "key_schema"@[0] == 'k' && "attributes"@[0] == 'a'
        && "size_bytes"@[0] == 's');
    assert("name"@[0] == 'n' && "body"@[0] == 'b');
    assert("runtime"@[0] == 'r' && "handler"@[0] == 'h');
    assert("memory_mb"@[0] == 'm' && "timeout_s"@[0] == 't');
    assert("access_key_id"@[0] == 'a' && "session_token"@[0] == 's');
}

/// What is shown of a value that may be missing: the text that it is, or null.
pub open spec fn shows_text(said: JsonView, name: Seq<char>, value: Option<String>) -> bool {
    said.field(name) == Some(
        match value {
            Some(text) => JsonView::Text(text@),
            None => JsonView::Null,
        },
    )
}

/// What is shown of an object and of a prefix in a listing: the prefixes come first, those that have a
/// name, and then the objects, each with all that is known of it.
pub proof fn law_listing(page: ObjectPage, object: ObjectEntry, prefix: Seq<char>)
    ensures
        page_entries(page).len() == present(page.prefixes@).len() + page.objects@.len(),
        forall|i: int|
            0 <= i < present(page.prefixes@).len() ==> #[trigger] page_entries(page)[i]
                == prefix_json(present(page.prefixes@)[i]),
        forall|i: int|
            0 <= i < page.objects@.len() ==> #[trigger] page_entries(page)[present(
                page.prefixes@,
            ).len() + i] == object_json(page.objects@[i]),
        prefix_json(prefix).text_field("type"@) == Some("prefix"@),
        prefix_json(prefix).text_field("key"@) == Some(prefix),
        prefix_json(prefix)->Object_0.dom() == set!["type"@, "key"@],
        ({
            let said = object_json(object);
            &&& said.text_field("type"@) == Some("object"@)
            &&& said.text_field("key"@) == Some(
                match object.key {
                    Some(key) => key@,
                    None => Seq::empty(),
                },
            )
            &&& said.field("size"@) == Some(
                int_json(
                    match object.size {
                        Some(size) => size as int,
                        None => 0,
                    },
                ),
            )
            &&& said.field("etag"@) == Some(
                match unquoted(opt_view(object.etag)) {
                    Some(text) => JsonView::Text(text),
                    None => JsonView::Null,
                },
            )
            &&& shows_text(said, "last_modified"@, object.last_modified)
            &&& shows_text(said, "storage_class"@, object.storage_class)
            &&& said->Object_0.dom() == set![
                "type"@,
                "key"@,
                "size"@,
                "etag"@,
                "last_modified"@,
                "storage_class"@,
            ]
        }),
{
    lemma_names();
    assert(prefix_json(prefix)->Object_0.dom() =~= set!["type"@, "key"@]);
    assert(object_json(object)->Object_0.dom() =~= set![
        "type"@,
        "key"@,
        "size"@,
        "etag"@,
        "last_modified"@,
        "storage_class"@,
    ]);
}

/// What is shown of an upload and of an object's metadata.
pub proof fn law_object_is_shown(
    bucket: Seq<char>,
    key: Seq<char>,
    etag: Option<Seq<char>>,
    version: Option<Seq<char>>,
    meta: Metadata,
)
    ensures
        ({
            let said = put_json(bucket, key, etag, version);
            &&& said.text_field("bucket"@) == Some(bucket) && said.text_field("key"@) == Some(key)
            &&& said.text_field("etag"@) == unquoted(etag)
            &&& said.text_field("version_id"@) == version
            &&& said->Object_0.dom() == set!["bucket"@, "key"@, "etag"@, "version_id"@]
        }),
        ({
            let said = head_json(bucket, key, meta);
            &&& said.text_field("bucket"@) == Some(bucket) && said.text_field("key"@) == Some(key)
            &&& said.field("size"@) == Some(
                match meta.size {
                    Some(size) => int_json(size as int),
                    None => JsonView::Null,
                },
            )
            &&& said.text_field("etag"@) == unquoted(opt_view(meta.etag))
            &&& shows_text(said, "content_type"@, meta.content_type)
            &&& shows_text(said, "cache_control"@, meta.cache_control)
            &&& shows_text(said, "last_modified"@, meta.last_modified)
            &&& shows_text(said, "storage_class"@, meta.storage_class)
            &&& shows_text(said, "version_id"@, meta.version_id)
            &&& said->Object_0.dom() == set![
                "bucket"@,
                "key"@,
                "size"@,
                "etag"@,
                "content_type"@,
                "cache_control"@,
                "last_modified"@,
                "storage_class"@,
                "version_id"@,
            ]
        }),
{
    lemma_names();
    assert(put_json(bucket, key, etag, version)->Object_0.dom() =~= set![
        "bucket"@,
        "key"@,
        "etag"@,
        "version_id"@,
    ]);
    assert(head_json(bucket, key, meta)->Object_0.dom() =~= set![
        "bucket"@,
        "key"@,
        "size"@,
        "etag"@,
        "content_type"@,
        "cache_control"@,
        "last_modified"@,
        "storage_class"@,
        "version_id"@,
    ]);
}

/// An item is read off a text that is a JSON object, field by field; any other JSON, and any other
/// text, is refused, the latter with what the parser says.
pub proof fn law_item_in_text(text: Seq<char>)
    ensures
        match parsed_json(text) {
            Ok(JsonView::Object(fields)) => {
                &&& item_in_text(text) is Ok
                &&& item_in_text(text)->Ok_0.dom() == fields.dom()
                &&& forall|k: Seq<char>|
                    fields.contains_key(k) ==> #[trigger] item_in_text(text)->Ok_0[k] == av_of(
                        fields[k],
                    )
            },
            Ok(_) => item_in_text(text) is Err && item_in_text(text)->Err_0
                == "expected a JSON object"@,
            Err(message) => item_in_text(text) is Err && item_in_text(text)->Err_0
                == "parsing JSON object: "@ + message,
        },
        optional_item(None) is Ok && optional_item(None)->Ok_0 is None,
        match item_in_text(text) {
            Ok(item) => optional_item(Some(text)) is Ok && optional_item(Some(text))->Ok_0 == Some(
                item,
            ),
            Err(message) => optional_item(Some(text)) is Err && optional_item(Some(text))->Err_0
                == message,
        },
{
    if let Ok(JsonView::Object(fields)) = parsed_json(text) {
        assert(item_in_text(text)->Ok_0.dom() =~= fields.dom());
    }
}

/// Names are read off a text that is a JSON object: each name stands for its text, and for the empty
/// one where it has another value.
pub proof fn law_names_in_text(text: Seq<char>)
    ensures
        match parsed_json(text) {
            Ok(JsonView::Object(fields)) => {
                let found = optional_names(Some(text));
                &&& found is Ok && found->Ok_0 is Some
                &&& found->Ok_0.unwrap().dom() == fields.dom()
                &&& forall|k: Seq<char>|
                    fields.contains_key(k) ==> #[trigger] found->Ok_0.unwrap()[k] == match fields[k] {
                        JsonView::Text(name) => name,
                        _ => Seq::<char>::empty(),
                    }
            },
            Ok(_) => optional_names(Some(text)) is Err && optional_names(Some(text))->Err_0
                == "--names must be a JSON object"@,
            Err(message) => optional_names(Some(text)) is Err && optional_names(Some(text))->Err_0
                == "parsing --names JSON: "@ + message,
        },
        optional_names(None) is Ok && optional_names(None)->Ok_0 is None,
{
    reveal_strlit("");
    assert(""@ =~= Seq::<char>::empty());
    if let Ok(JsonView::Object(fields)) = parsed_json(text) {
        assert(optional_names(Some(text))->Ok_0.unwrap().dom() =~= fields.dom());
    }
}

/// A line of a bulk write: blank ones are passed over; an object with `_delete` deletes by the key
/// under it, which must be an object; any other object is an item to put.
pub proof fn law_line_of_writes(line: Seq<char>)
    ensures
        trimmed(line).len() == 0 ==> write_on_line(line) == Ok::<Option<WriteView>, Seq<char>>(None),
        trimmed(line).len() > 0 ==> match parsed_json(line) {
            Err(message) => write_on_line(line) == Err::<Option<WriteView>, Seq<char>>(
                "parsing NDJSON line: "@ + message,
            ),
            Ok(JsonView::Object(fields)) => if fields.contains_key("_delete"@) {
                match fields["_delete"@] {
                    JsonView::Object(key) => write_on_line(line) == Ok::<
                        Option<WriteView>,
                        Seq<char>,
                    >(Some(WriteView::Delete(item_of(key)))),
                    _ => write_on_line(line) == Err::<Option<WriteView>, Seq<char>>(
                        "_delete must be an object"@,
                    ),
                }
            } else {
                write_on_line(line) == Ok::<Option<WriteView>, Seq<char>>(
                    Some(WriteView::Put(item_of(fields))),
                )
            },
            Ok(_) => write_on_line(line) == Err::<Option<WriteView>, Seq<char>>(
                "each NDJSON line must be a JSON object (item or {_delete: key})"@,
            ),
        },
{
}

/// The DynamoDB commands that name an item or a key: it is read off the text, and everything else is
/// kept. An item `-` is read from the standard input.
pub proof fn law_item_commands(cmd: DdbCmd, plan: Result<DdbRequest, String>)
    requires
        call_ensures(ddb::dispatch, (cmd,), plan),
    ensures
        match cmd {
            DdbCmd::Get { table, key, consistent } => match item_in_text(key@) {
                Ok(item) => plan matches Ok(DdbRequest::Get { table: t, key: k, consistent: c }) && t
                    == table && crate::attribute::item_view(k@) == item && c == consistent,
                Err(why) => plan matches Err(m) && m@ == why,
            },
            DdbCmd::Put { table, item } => if item@ == seq!['-'] {
                plan matches Ok(DdbRequest::PutLine { table: t }) && t == table
            } else {
                match item_in_text(item@) {
                    Ok(fields) => plan matches Ok(DdbRequest::Put { table: t, item: i }) && t == table
                        && crate::attribute::item_view(i@) == fields,
                    Err(why) => plan matches Err(m) && m@ == why,
                }
            },
            DdbCmd::Delete { table, key } => match item_in_text(key@) {
                Ok(item) => plan matches Ok(DdbRequest::Delete { table: t, key: k }) && t == table
                    && crate::attribute::item_view(k@) == item,
                Err(why) => plan matches Err(m) && m@ == why,
            },
            DdbCmd::BatchWrite { table } => plan matches Ok(DdbRequest::BatchWrite { table: t }) && t
                == table,
            DdbCmd::Tables => plan matches Ok(DdbRequest::Tables),
            DdbCmd::Describe { table } => plan matches Ok(DdbRequest::Describe { table: t }) && t
                == table,
            _ => true,
        },
{
    reveal_strlit("-");
    assert("-"@ =~= seq!['-']);
}

/// A query and a scan keep all that they were given; their values and names are read off the texts,
/// and where one of them is refused the values are to blame first.
pub proof fn law_query_commands(cmd: DdbCmd, plan: Result<DdbRequest, String>)
    requires
        call_ensures(ddb::dispatch, (cmd,), plan),
    ensures
        cmd matches DdbCmd::Query { table, expr, vals, names, index, filter, limit, consistent } ==> {
            let (v, n) = (optional_item(opt_view(vals)), optional_names(opt_view(names)));
            match plan {
                Ok(DdbRequest::Query {
                    table: t,
                    expr: e,
                    vals: pv,
                    names: pn,
                    index: i,
                    filter: f,
                    limit: l,
                    consistent: c,
                }) => {
                    &&& v is Ok && n is Ok
                    &&& t == table && e == expr && i == index && f == filter && l == limit && c
                        == consistent
                    &&& ddb::optional_item_view(pv) == v->Ok_0
                    &&& ddb::optional_names_view(pn) == n->Ok_0
                },
                Ok(_) => false,
                Err(why) => if v is Err {
                    why@ == v->Err_0
                } else {
                    n is Err && why@ == n->Err_0
                },
            }
        },
        cmd matches DdbCmd::Scan { table, filter, vals, names, index, limit, page_size } ==> {
            let (v, n) = (optional_item(opt_view(vals)), optional_names(opt_view(names)));
            match plan {
                Ok(DdbRequest::Scan {
                    table: t,
                    filter: f,
                    vals: pv,
                    names: pn,
                    index: i,
                    limit: l,
                    page_size: p,
                }) => {
                    &&& v is Ok && n is Ok
                    &&& t == table && i == index && f == filter && l == limit && p == page_size
                    &&& ddb::optional_item_view(pv) == v->Ok_0
                    &&& ddb::optional_names_view(pn) == n->Ok_0
                },
                Ok(_) => false,
                Err(why) => if v is Err {
                    why@ == v->Err_0
                } else {
                    n is Err && why@ == n->Err_0
                },
            }
        },
{
}

/// What is shown of a table, and of the names of tables.
pub proof fn law_tables_are_shown(table: TableInfo, names: Seq<Seq<char>>, pairs: Seq<(String, String)>, label: Seq<char>)
    requires
        label != "type"@,
    ensures
        named(names).len() == names.len(),
        forall|i: int|
            0 <= i < names.len() ==> #[trigger] named(names)[i] == JsonView::Object(
                map!["name"@ => JsonView::Text(names[i])],
            ),
        typed(pairs, label) is Array && typed(pairs, label)->Array_0.len() == pairs.len(),
        forall|i: int|
            0 <= i < pairs.len() ==> {
                let said = #[trigger] typed(pairs, label)->Array_0[i];
                said.text_field(label) == Some(pairs[i].0@) && said.text_field("type"@) == Some(
                    pairs[i].1@,
                )
            },
        ({
            let said = table_json(table);
            &&& shows_text(said, "name"@, table.name)
            &&& shows_text(said, "status"@, table.status)
            &&& shows_text(said, "arn"@, table.arn)
            &&& said.field("item_count"@) == Some(
                match table.item_count {
                    Some(n) => int_json(n as int),
                    None => JsonView::Null,
                },
            )
            &&& said.field("size_bytes"@) == Some(
                match table.size_bytes {
                    Some(n) => int_json(n as int),
                    None => JsonView::Null,
                },
            )
            &&& said.field("key_schema"@) == Some(typed(table.key_schema@, "attribute"@))
            &&& said.field("attributes"@) == Some(typed(table.attributes@, "name"@))
        }),
{
    lemma_names();
}

/// What the SQS commands ask for: what they were given, but at most ten messages, and a wait of 0 to
/// 20 seconds.
pub proof fn law_sqs_commands(cmd: SqsCmd, plan: SqsRequest)
    requires
        call_ensures(sqs::dispatch, (cmd,), plan),
    ensures
        match cmd {
            SqsCmd::Send { queue_url, body, delay_seconds, dedup_id, group_id } => plan == (SqsRequest::Send { queue_url, body, delay_seconds, dedup_id, group_id }),
            SqsCmd::Receive { queue_url, max, wait, visibility } => {
                &&& plan matches SqsRequest::Receive {
                    queue_url: q,
                    max: m,
                    wait: w,
                    visibility: v,
                }
                &&& q == queue_url && v == visibility
                &&& m == if max <= 10 {
                    max
                } else {
                    10
                }
                &&& w == if wait < 0 {
                    0
                } else if wait <= 20 {
                    wait
                } else {
                    20
                }
            },
            SqsCmd::Delete { queue_url, receipt } => plan == (SqsRequest::Delete {
                queue_url,
                receipt,
            }),
            SqsCmd::Purge { queue_url } => plan == (SqsRequest::Purge { queue_url }),
            SqsCmd::Attrs { queue_url } => plan == (SqsRequest::Attrs { queue_url }),
            SqsCmd::List { prefix } => plan == (SqsRequest::List { prefix }),
        },
{
}

/// What is shown of messages, of attributes by name, and of queues.
pub proof fn law_queues_are_shown(
    message: Message,
    pairs: Seq<(String, String)>,
    name: String,
    value: String,
    urls: Seq<Seq<char>>,
    other: Seq<char>,
)
    ensures
        ({
            let said = message_json(message);
            &&& shows_text(said, "message_id"@, message.message_id)
            &&& shows_text(said, "receipt_handle"@, message.receipt_handle)
            &&& shows_text(said, "md5"@, message.md5)
            &&& shows_text(said, "body"@, message.body)
            &&& said->Object_0.dom() == set!["message_id"@, "receipt_handle"@, "md5"@, "body"@]
        }),
        texts_by_name(pairs.push((name, value))) == texts_by_name(pairs).insert(
            name@,
            JsonView::Text(value@),
        ),
        texts_by_name(Seq::empty()) == Map::<Seq<char>, JsonView>::empty(),
        sqs::located(urls).len() == urls.len(),
        forall|i: int|
            0 <= i < urls.len() ==> #[trigger] sqs::located(urls)[i] == JsonView::Object(
                map!["url"@ => JsonView::Text(urls[i])],
            ),
{
    lemma_names();
    assert(message_json(message)->Object_0.dom() =~= set![
        "message_id"@,
        "receipt_handle"@,
        "md5"@,
        "body"@,
    ]);
    assert(pairs.push((name, value)).drop_last() =~= pairs);
}

/// Two texts that are the same in lower case.
pub open spec fn same_in_small(text: Seq<char>, small: Seq<char>) -> bool {
    text.len() == small.len() && forall|i: int|
        0 <= i < text.len() ==> {
            let n = #[trigger] text[i] as int;
            small[i] as int == if 65 <= n <= 90 {
                n + 32
            } else {
                n
            }
        }
}

proof fn lemma_small(text: Seq<char>, small: Seq<char>)
    ensures
        crate::lambda::lower_case(text) == small <==> same_in_small(text, small),
{
    if same_in_small(text, small) {
        assert forall|i: int| 0 <= i < text.len() implies crate::lambda::lower_case(text)[i]
            == small[i] by {
            law_case(text[i]);
            assert(small[i] as int == crate::lambda::lower_case(text)[i] as int);
        }
        assert(crate::lambda::lower_case(text) =~= small);
    }
    if crate::lambda::lower_case(text) == small {
        assert forall|i: int| 0 <= i < text.len() implies {
            let n = #[trigger] text[i] as int;
            small[i] as int == if 65 <= n <= 90 {
                n + 32
            } else {
                n
            }
        } by {
            law_case(text[i]);
            assert(crate::lambda::lower_case(text)[i] == small[i]);
        }
    }
}

/// How a function is invoked goes by its name, in either case: `request-response` or `sync` to wait
/// for the answer, `event` or `async` not to, `dry-run` or `dryrun` only to try. Any other name is
/// refused.
pub proof fn law_invocation(name: Seq<char>)
    ensures
        invocation_of(name) == Ok::<Invocation, Seq<char>>(Invocation::RequestResponse)
            <==> same_in_small(name, "request-response"@) || same_in_small(name, "sync"@),
        invocation_of(name) == Ok::<Invocation, Seq<char>>(Invocation::Event) <==> same_in_small(
            name,
            "event"@,
        ) || same_in_small(name, "async"@),
        invocation_of(name) == Ok::<Invocation, Seq<char>>(Invocation::DryRun) <==> same_in_small(
            name,
            "dry-run"@,
        ) || same_in_small(name, "dryrun"@),
        invocation_of(name) matches Err(why) ==> exists|small: Seq<char>|
            same_in_small(name, small) && why == #[trigger] ("invocation_type: "@ + small)
                + " (expected request-response|event|dry-run)"@,
{
    lemma_small(name, "request-response"@);
    lemma_small(name, "sync"@);
    lemma_small(name, "event"@);
    lemma_small(name, "async"@);
    lemma_small(name, "dry-run"@);
    lemma_small(name, "dryrun"@);
    lemma_small(name, crate::lambda::lower_case(name));
    reveal_strlit("request-response");
    reveal_strlit("sync");
    reveal_strlit("event");
    reveal_strlit("async");
    reveal_strlit("dry-run");
    reveal_strlit("dryrun");
    assert("request-response"@.len() == 16 && "sync"@.len() == 4 && "event"@.len() == 5
        && "async"@.len() == 5 && "dry-run"@.len() == 7 && "dryrun"@.len() == 6);
    assert("event"@[0] == 'e' && "async"@[0] == 'a');
}

/// What a function answered is shown as the JSON that it is, and else as text, as well as it can be
/// read; its log is shown as the text that its base64 stands for, and else as it came.
pub proof fn law_invocation_is_shown(
    bytes: Seq<u8>,
    code: Seq<char>,
    status: int,
    error: Option<Seq<char>>,
    version: Option<Seq<char>>,
    log: Option<Seq<char>>,
    payload: JsonView,
)
    ensures
        payload_json(None) == JsonView::Null,
        payload_json(Some(bytes)) == match parsed_json_bytes(bytes) {
            Some(json) => json,
            None => JsonView::Text(lossy(bytes)),
        },
        log_text(None) is None,
        log_text(Some(code)) == Some(
            match base64_bytes(code) {
                Some(log_bytes) => match utf8_text(log_bytes) {
                    Some(text) => text,
                    None => code,
                },
                None => code,
            },
        ),
        ({
            let said = invoke_json(status, error, version, log, payload);
            &&& said.field("status_code"@) == Some(int_json(status))
            &&& said.text_field("function_error"@) == error
            &&& said.text_field("executed_version"@) == version
            &&& said.text_field("log_tail"@) == log
            &&& said.field("payload"@) == Some(payload)
            &&& said->Object_0.dom() == set![
                "status_code"@,
                "function_error"@,
                "executed_version"@,
                "log_tail"@,
                "payload"@,
            ]
        }),
{
    lemma_names();
    assert(invoke_json(status, error, version, log, payload)->Object_0.dom() =~= set![
        "status_code"@,
        "function_error"@,
        "executed_version"@,
        "log_tail"@,
        "payload"@,
    ]);
}

/// What is shown of a function and of an assumed role.
pub proof fn law_function_and_role(f: FunctionInfo, creds: Credentials, role: Option<Seq<char>>)
    ensures
        ({
            let said = function_json(f);
            &&& shows_text(said, "name"@, f.name)
            &&& shows_text(said, "runtime"@, f.runtime)
            &&& shows_text(said, "arn"@, f.arn)
            &&& shows_text(said, "last_modified"@, f.last_modified)
            &&& shows_text(said, "handler"@, f.handler)
            &&& said.field("memory_mb"@) == Some(
                match f.memory {
                    Some(n) => int_json(n as int),
                    None => JsonView::Null,
                },
            )
            &&& said.field("timeout_s"@) == Some(
                match f.timeout {
                    Some(n) => int_json(n as int),
                    None => JsonView::Null,
                },
            )
        }),
        ({
            let said = role_json(creds, role);
            &&& said.text_field("access_key_id"@) == Some(creds.access_key_id@)
            &&& said.text_field("secret_access_key"@) == Some(creds.secret_access_key@)
            &&& said.text_field("session_token"@) == Some(creds.session_token@)
            &&& said.text_field("expiration"@) == Some(creds.expiration@)
            &&& said.text_field("assumed_role_arn"@) == role
        }),
{
    lemma_names();
}

}
