//! The S3 commands: what each asks of the service, and what it shows of the answer.
use vstd::prelude::*;
use vstd::string::*;

use crate::json::int_json;
use crate::json::int_or_null;
use crate::json::items_view;
use crate::json::lemma_items_push;
use crate::json::put as put_field;
use crate::json::text_or_empty;
use crate::json::text_or_null;
use crate::json::Json;
use crate::json::JsonView;
use crate::options::borrowed;
use crate::options::keep_present;
use crate::options::opt_view;
use crate::options::present;
use crate::options::strings_view;
use crate::paging::left_after;
use crate::paging::shown;
use crate::paging::Quota;
use crate::text::same;
use crate::text::to_upper;
use crate::text::trim_end;
use crate::text::trim_start;
use crate::text::upper;
use crate::text::without_leading;
use crate::text::without_trailing;
use crate::uri::parse_s3_uri;
use crate::uri::s3_uri_parts;

verus! {

/// An S3 command.
#[derive(Debug)]
pub enum S3Cmd {
    /// List the objects under `s3://bucket/prefix`.
    Ls { uri: String, page_size: i32, limit: Option<usize>, delimiter: Option<String> },
    /// Fetch an object's body; `-` stands for the standard output.
    Get { uri: String, output: String },
    /// Upload bytes to `s3://bucket/key`; `-` stands for the standard input.
    Put {
        uri: String,
        input: String,
        content_type: Option<String>,
        cache_control: Option<String>,
        buffered: bool,
    },
    /// Show the metadata of an object.
    Head { uri: String },
    /// Delete an object.
    Rm { uri: String },
    /// Make a presigned URL.
    Presign { uri: String, method: String, expires: u64 },
    /// List the buckets.
    Buckets,
}

/// What a presigned URL is good for.
#[derive(Debug, PartialEq, Eq, Clone, Copy)]
pub enum Method {
    Get,
    Put,
}

/// What a command asks for.
#[derive(Debug)]
pub enum S3Request {
    /// Page through the objects of a bucket.
    List {
        bucket: String,
        prefix: Option<String>,
        delimiter: Option<String>,
        page_size: i32,
        limit: Option<usize>,
    },
    /// Fetch an object and write it to `output`.
    Get { bucket: String, key: String, output: String },
    /// Upload `input`, read as a whole or streamed from a file.
    Put {
        bucket: String,
        key: String,
        input: String,
        streamed: bool,
        content_type: Option<String>,
        cache_control: Option<String>,
    },
    /// Ask for the metadata of an object.
    Head { bucket: String, key: String },
    /// Delete an object.
    Delete { bucket: String, key: String },
    /// Sign a URL that is valid for so many seconds.
    Presign { bucket: String, key: String, method: Method, expires: u64 },
    /// Ask for the buckets.
    Buckets,
}

/// How long a presigned URL may be valid, in seconds: a week.
pub const LONGEST_PRESIGNED: u64 = 604_800;

/// The name of a method.
pub open spec fn method_name(method: Method) -> Seq<char> {
    match method {
        Method::Get => "GET"@,
        Method::Put => "PUT"@,
    }
}

/// `text` in upper case.
pub open spec fn upper_case(text: Seq<char>) -> Seq<char> {
    text.map_values(|c: char| upper(c))
}

/// The request failed with this message.
pub open spec fn refused(plan: Result<S3Request, String>, message: Seq<char>) -> bool {
    plan matches Err(m) && m@ == message
}

/// What a command asks for, or why it cannot be done. Only `get`, `put` and `rm` insist on a key.
pub open spec fn planned(cmd: S3Cmd, plan: Result<S3Request, String>) -> bool {
    match cmd {
        S3Cmd::Ls { uri, page_size, limit, delimiter } => match s3_uri_parts(uri@) {
            Err(message) => refused(plan, message),
            Ok((b, k)) => {
                &&& plan matches Ok(
                    S3Request::List {
                        bucket,
                        prefix,
                        delimiter: d,
                        page_size: size,
                        limit: most,
                    },
                )
                &&& bucket@ == b
                &&& opt_view(prefix) == if k.len() == 0 {
                    None
                } else {
                    Some(k)
                }
                &&& d == delimiter && size == page_size && most == limit
            },
        },
        S3Cmd::Get { uri, output } => match s3_uri_parts(uri@) {
            Err(message) => refused(plan, message),
            Ok((b, k)) => if k.len() == 0 {
                refused(plan, "get needs a full object URI (s3://bucket/key)"@)
            } else {
                plan matches Ok(S3Request::Get { bucket, key, output: o }) && bucket@ == b && key@
                    == k && o == output
            },
        },
        S3Cmd::Put { uri, input, content_type, cache_control, buffered } => match s3_uri_parts(
            uri@,
        ) {
            Err(message) => refused(plan, message),
            Ok((b, k)) => if k.len() == 0 {
                refused(plan, "put needs a full object URI (s3://bucket/key)"@)
            } else {
                &&& plan matches Ok(
                    S3Request::Put {
                        bucket,
                        key,
                        input: i,
                        streamed,
                        content_type: ct,
                        cache_control: cc,
                    },
                )
                &&& bucket@ == b && key@ == k && i == input
                &&& streamed == !(buffered || input@ == "-"@)
                &&& ct == content_type && cc == cache_control
            },
        },
        S3Cmd::Head { uri } => match s3_uri_parts(uri@) {
            Err(message) => refused(plan, message),
            Ok((b, k)) => plan matches Ok(S3Request::Head { bucket, key }) && bucket@ == b && key@
                == k,
        },
        S3Cmd::Rm { uri } => match s3_uri_parts(uri@) {
            Err(message) => refused(plan, message),
            Ok((b, k)) => if k.len() == 0 {
                refused(plan, "rm needs a full object URI (s3://bucket/key)"@)
            } else {
                plan matches Ok(S3Request::Delete { bucket, key }) && bucket@ == b && key@ == k
            },
        },
        S3Cmd::Presign { uri, method, expires } => match s3_uri_parts(uri@) {
            Err(message) => refused(plan, message),
            Ok((b, k)) => if expires > LONGEST_PRESIGNED {
                refused(
                    plan,
                    "invalid expires: "@ + "`expires_in` must be no longer than one week"@,
                )
            } else if upper_case(method@) != "GET"@ && upper_case(method@) != "PUT"@ {
                refused(
                    plan,
                    "presign method must be GET or PUT (got "@ + upper_case(method@) + ")"@,
                )
            } else {
                &&& plan matches Ok(S3Request::Presign { bucket, key, method: m, expires: e })
                &&& bucket@ == b && key@ == k && e == expires
                &&& method_name(m) == upper_case(method@)
            },
        },
        S3Cmd::Buckets => plan matches Ok(S3Request::Buckets),
    }
}

/// `PresigningConfig::expires_in` of `aws_sdk_s3` takes up to a week, and says so where it is asked
/// for more.
#[verifier::external_body]
fn check_expiry(seconds: u64) -> (checked: Result<(), String>)
    ensures
        checked is Ok <==> seconds <= LONGEST_PRESIGNED,
        checked matches Err(message) ==> message@
            == "`expires_in` must be no longer than one week"@,
{
    let time = std::time::Duration::from_secs(seconds);
    match aws_sdk_s3::presigning::PresigningConfig::expires_in(time) {
        Ok(_) => Ok(()),
        Err(error) => Err(error.to_string()),
    }
}

/// The object that a URI names; a URI without a key is refused with this message.
fn object_of(uri: &str, message: &str) -> (object: Result<(String, String), String>)
    ensures
        match object {
            Ok((bucket, key)) => s3_uri_parts(uri@) == Ok::<(Seq<char>, Seq<char>), Seq<char>>(
                (bucket@, key@),
            ) && key@.len() > 0,
            Err(m) => match s3_uri_parts(uri@) {
                Ok((_, k)) => k.len() == 0 && m@ == message@,
                Err(why) => m@ == why,
            },
        },
{
    let (bucket, key) = match parse_s3_uri(uri) {
        Ok(parts) => parts,
        Err(why) => return Err(why),
    };
    if key.as_str().is_empty() {
        Err(message.to_owned())
    } else {
        Ok((bucket, key))
    }
}

/// What a command asks for.
pub fn dispatch(cmd: S3Cmd) -> (plan: Result<S3Request, String>)
    ensures
        planned(cmd, plan),
{
    match cmd {
        S3Cmd::Ls { uri, page_size, limit, delimiter } => {
            let (bucket, key) = match parse_s3_uri(uri.as_str()) {
                Ok(parts) => parts,
                Err(why) => return Err(why),
            };
            let prefix = if key.as_str().is_empty() {
                None
            } else {
                Some(key)
            };
            Ok(S3Request::List { bucket, prefix, delimiter, page_size, limit })
        },
        S3Cmd::Get { uri, output } => {
            match object_of(uri.as_str(), "get needs a full object URI (s3://bucket/key)") {
                Ok((bucket, key)) => Ok(S3Request::Get { bucket, key, output }),
                Err(why) => Err(why),
            }
        },
        S3Cmd::Put { uri, input, content_type, cache_control, buffered } => {
            match object_of(uri.as_str(), "put needs a full object URI (s3://bucket/key)") {
                Ok((bucket, key)) => {
                    let streamed = !(buffered || same(input.as_str(), "-"));
                    Ok(S3Request::Put { bucket, key, input, streamed, content_type, cache_control })
                },
                Err(why) => Err(why),
            }
        },
        S3Cmd::Head { uri } => {
            match parse_s3_uri(uri.as_str()) {
                Ok((bucket, key)) => Ok(S3Request::Head { bucket, key }),
                Err(why) => Err(why),
            }
        },
        S3Cmd::Rm { uri } => {
            match object_of(uri.as_str(), "rm needs a full object URI (s3://bucket/key)") {
                Ok((bucket, key)) => Ok(S3Request::Delete { bucket, key }),
                Err(why) => Err(why),
            }
        },
        S3Cmd::Presign { uri, method, expires } => {
            let (bucket, key) = match parse_s3_uri(uri.as_str()) {
                Ok(parts) => parts,
                Err(why) => return Err(why),
            };
            if let Err(why) = check_expiry(expires) {
                return Err("invalid expires: ".to_owned().concat(why.as_str()));
            }
            let name = to_upper(method.as_str());
            let kind = if same(name.as_str(), "GET") {
                Method::Get
            } else if same(name.as_str(), "PUT") {
                Method::Put
            } else {
                return Err(
                    "presign method must be GET or PUT (got ".to_owned().concat(
                        name.as_str(),
                    ).concat(")"),
                );
            };
            Ok(S3Request::Presign { bucket, key, method: kind, expires })
        },
        S3Cmd::Buckets => Ok(S3Request::Buckets),
    }
}

/// An object in a listing.
#[derive(Debug)]
pub struct ObjectEntry {
    pub key: Option<String>,
    pub size: Option<i64>,
    pub etag: Option<String>,
    pub last_modified: Option<String>,
    pub storage_class: Option<String>,
}

/// A page of a listing.
#[derive(Debug)]
pub struct ObjectPage {
    pub prefixes: Vec<Option<String>>,
    pub objects: Vec<ObjectEntry>,
    pub truncated: Option<bool>,
    pub token: Option<String>,
}

/// A text without the quotation marks around it.
pub open spec fn unquoted(text: Option<Seq<char>>) -> Option<Seq<char>> {
    match text {
        Some(t) => Some(without_trailing(without_leading(t, '"'), '"')),
        None => None,
    }
}

/// A whole number, widened.
pub open spec fn widened(value: Option<i64>) -> Option<int> {
    match value {
        Some(i) => Some(i as int),
        None => None,
    }
}

/// What is shown of a common prefix.
pub open spec fn prefix_json(prefix: Seq<char>) -> JsonView {
    JsonView::Object(
        map!["type"@ => JsonView::Text("prefix"@), "key"@ => JsonView::Text(prefix)],
    )
}

/// What is shown of an object in a listing.
pub open spec fn object_json(object: ObjectEntry) -> JsonView {
    JsonView::Object(
        map![
            "type"@ => JsonView::Text("object"@),
            "key"@ => text_or_empty(opt_view(object.key)),
            "size"@ => int_json(object.size.unwrap_or(0) as int),
            "etag"@ => text_or_null(unquoted(opt_view(object.etag))),
            "last_modified"@ => text_or_null(opt_view(object.last_modified)),
            "storage_class"@ => text_or_null(opt_view(object.storage_class)),
        ],
    )
}

/// Everything on a page: the common prefixes first, then the objects.
pub open spec fn page_entries(page: ObjectPage) -> Seq<JsonView> {
    present(page.prefixes@).map_values(|p: Seq<char>| prefix_json(p)) + page.objects@.map_values(
        |o: ObjectEntry| object_json(o),
    )
}

/// Where the listing goes on, if it does: there is a next page and more may be shown.
pub open spec fn next_page(page: ObjectPage, left: Option<usize>) -> Option<Seq<char>> {
    if left == Some(0usize) || page.truncated != Some(true) {
        None
    } else {
        opt_view(page.token)
    }
}

/// A text without the quotation marks around it, as JSON.
pub(crate) fn unquoted_text(text: &Option<String>) -> (json: Json)
    ensures
        json@ == text_or_null(unquoted(opt_view(*text))),
{
    proof {
        reveal_strlit("\"");
    }
    match text {
        Some(t) => Json::text(trim_end(trim_start(t.as_str(), "\""), "\"")),
        None => Json::Null,
    }
}

/// Shows a common prefix.
pub(crate) fn show_prefix(prefix: &str) -> (json: Json)
    ensures
        json@ == prefix_json(prefix@),
{
    let mut out: Vec<(String, Json)> = Vec::new();
    put_field(&mut out, "type", Json::text("prefix"));
    put_field(&mut out, "key", Json::text(prefix));
    Json::Object(out)
}

/// Shows an object in a listing.
fn show_object(object: &ObjectEntry) -> (json: Json)
    ensures
        json@ == object_json(*object),
{
    let mut out: Vec<(String, Json)> = Vec::new();
    put_field(&mut out, "type", Json::text("object"));
    put_field(&mut out, "key", Json::text_or_empty(borrowed(&object.key)));
    put_field(
        &mut out,
        "size",
        Json::whole(
            match object.size {
                Some(size) => size,
                None => 0,
            },
        ),
    );
    put_field(&mut out, "etag", unquoted_text(&object.etag));
    put_field(&mut out, "last_modified", Json::text_or_null(borrowed(&object.last_modified)));
    put_field(&mut out, "storage_class", Json::text_or_null(borrowed(&object.storage_class)));
    Json::Object(out)
}

/// Everything on a page.
fn show_page(prefixes: &Vec<String>, objects: &Vec<ObjectEntry>) -> (entries: Vec<Json>)
    ensures
        items_view(entries@) == strings_view(prefixes@).map_values(
            |p: Seq<char>| prefix_json(p),
        ) + objects@.map_values(|o: ObjectEntry| object_json(o)),
{
    let mut entries: Vec<Json> = Vec::new();
    let ghost first = strings_view(prefixes@).map_values(|p: Seq<char>| prefix_json(p));
    let ghost second = objects@.map_values(|o: ObjectEntry| object_json(o));
    let mut i: usize = 0;
    while i < prefixes.len()
        invariant
            i <= prefixes@.len(),
            first == strings_view(prefixes@).map_values(|p: Seq<char>| prefix_json(p)),
            items_view(entries@) == first.take(i as int),
        decreases prefixes@.len() - i,
    {
        let entry = show_prefix(prefixes[i].as_str());
        proof {
            lemma_items_push(entries@, entry);
            assert(first.take(i + 1) =~= first.take(i as int).push(first[i as int]));
        }
        entries.push(entry);
        i = i + 1;
    }
    assert(first.take(i as int) =~= first);
    assert(first =~= first + second.take(0));
    let mut j: usize = 0;
    while j < objects.len()
        invariant
            j <= objects@.len(),
            second == objects@.map_values(|o: ObjectEntry| object_json(o)),
            items_view(entries@) == first + second.take(j as int),
        decreases objects@.len() - j,
    {
        let entry = show_object(&objects[j]);
        proof {
            lemma_items_push(entries@, entry);
            assert(first + second.take(j + 1) =~= (first + second.take(j as int)).push(
                second[j as int],
            ));
        }
        entries.push(entry);
        j = j + 1;
    }
    assert(second.take(j as int) =~= second);
    entries
}

/// A listing under way.
pub struct Listing {
    pub quota: Quota,
}

impl Listing {
    /// A listing that shows so many entries at most, over all pages.
    pub fn new(limit: Option<usize>) -> (listing: Listing)
        ensures
            listing.quota.left == limit,
    {
        Listing { quota: Quota { left: limit } }
    }

    /// Shows what may be shown of a page, and says where the listing goes on, if it does.
    pub fn page(&mut self, page: ObjectPage) -> (shows: (Vec<Json>, Option<String>))
        ensures
            items_view(shows.0@) == page_entries(page).take(
                shown(old(self).quota.left, page_entries(page).len()) as int,
            ),
            final(self).quota.left == left_after(old(self).quota.left, page_entries(page).len()),
            opt_view(shows.1) == next_page(page, final(self).quota.left),
    {
        let ghost whole = page_entries(page);
        let ObjectPage { prefixes, objects, truncated, token } = page;
        let kept = keep_present(prefixes);
        let entries = show_page(&kept, &objects);
        assert(items_view(entries@) == whole);
        let ghost all = entries@;
        let lines = self.quota.take(entries);
        assert(items_view(lines@) =~= whole.take(lines@.len() as int));
        let more = match truncated {
            Some(yes) => yes,
            None => false,
        };
        if self.quota.spent() || !more {
            (lines, None)
        } else {
            (lines, token)
        }
    }
}

/// What is shown of an upload.
pub open spec fn put_json(
    bucket: Seq<char>,
    key: Seq<char>,
    etag: Option<Seq<char>>,
    version: Option<Seq<char>>,
) -> JsonView {
    JsonView::Object(
        map![
            "bucket"@ => JsonView::Text(bucket),
            "key"@ => JsonView::Text(key),
            "etag"@ => text_or_null(unquoted(etag)),
            "version_id"@ => text_or_null(version),
        ],
    )
}

/// Shows an upload.
pub fn put(bucket: &str, key: &str, etag: Option<String>, version_id: Option<String>) -> (json:
    Json)
    ensures
        json@ == put_json(bucket@, key@, opt_view(etag), opt_view(version_id)),
{
    let mut out: Vec<(String, Json)> = Vec::new();
    put_field(&mut out, "bucket", Json::text(bucket));
    put_field(&mut out, "key", Json::text(key));
    put_field(&mut out, "etag", unquoted_text(&etag));
    put_field(&mut out, "version_id", Json::text_or_null(borrowed(&version_id)));
    Json::Object(out)
}

/// The metadata of an object.
#[derive(Debug)]
pub struct Metadata {
    pub size: Option<i64>,
    pub etag: Option<String>,
    pub content_type: Option<String>,
    pub cache_control: Option<String>,
    pub last_modified: Option<String>,
    pub storage_class: Option<String>,
    pub version_id: Option<String>,
}

/// What is shown of an object's metadata.
pub open spec fn head_json(bucket: Seq<char>, key: Seq<char>, meta: Metadata) -> JsonView {
    JsonView::Object(
        map![
            "bucket"@ => JsonView::Text(bucket),
            "key"@ => JsonView::Text(key),
            "size"@ => int_or_null(widened(meta.size)),
            "etag"@ => text_or_null(unquoted(opt_view(meta.etag))),
            "content_type"@ => text_or_null(opt_view(meta.content_type)),
            "cache_control"@ => text_or_null(opt_view(meta.cache_control)),
            "last_modified"@ => text_or_null(opt_view(meta.last_modified)),
            "storage_class"@ => text_or_null(opt_view(meta.storage_class)),
            "version_id"@ => text_or_null(opt_view(meta.version_id)),
        ],
    )
}

/// Shows an object's metadata.
pub fn head(bucket: &str, key: &str, meta: Metadata) -> (json: Json)
    ensures
        json@ == head_json(bucket@, key@, meta),
{
    let mut out: Vec<(String, Json)> = Vec::new();
    put_field(&mut out, "bucket", Json::text(bucket));
    put_field(&mut out, "key", Json::text(key));
    put_field(
        &mut out,
        "size",
        match meta.size {
            Some(size) => Json::whole(size),
            None => Json::Null,
        },
    );
    put_field(&mut out, "etag", unquoted_text(&meta.etag));
    put_field(&mut out, "content_type", Json::text_or_null(borrowed(&meta.content_type)));
    put_field(&mut out, "cache_control", Json::text_or_null(borrowed(&meta.cache_control)));
    put_field(&mut out, "last_modified", Json::text_or_null(borrowed(&meta.last_modified)));
    put_field(&mut out, "storage_class", Json::text_or_null(borrowed(&meta.storage_class)));
    put_field(&mut out, "version_id", Json::text_or_null(borrowed(&meta.version_id)));
    Json::Object(out)
}

/// Shows that an object was deleted.
pub fn rm(bucket: &str, key: &str) -> (json: Json)
    ensures
        json@ == JsonView::Object(
            map![
                "bucket"@ => JsonView::Text(bucket@),
                "key"@ => JsonView::Text(key@),
                "deleted"@ => JsonView::Bool(true),
            ],
        ),
{
    let mut out: Vec<(String, Json)> = Vec::new();
    put_field(&mut out, "bucket", Json::text(bucket));
    put_field(&mut out, "key", Json::text(key));
    put_field(&mut out, "deleted", Json::Bool(true));
    Json::Object(out)
}

/// Shows a presigned URL.
pub fn presign(method: Method, bucket: &str, key: &str, expires: u64, url: &str) -> (json: Json)
    ensures
        json@ == JsonView::Object(
            map![
                "method"@ => JsonView::Text(method_name(method)),
                "bucket"@ => JsonView::Text(bucket@),
                "key"@ => JsonView::Text(key@),
                "expires_in"@ => int_json(expires as int),
                "url"@ => JsonView::Text(url@),
            ],
        ),
{
    let name = match method {
        Method::Get => "GET",
        Method::Put => "PUT",
    };
    let mut out: Vec<(String, Json)> = Vec::new();
    put_field(&mut out, "method", Json::text(name));
    put_field(&mut out, "bucket", Json::text(bucket));
    put_field(&mut out, "key", Json::text(key));
    put_field(&mut out, "expires_in", Json::count(expires));
    put_field(&mut out, "url", Json::text(url));
    Json::Object(out)
}

/// Shows a bucket.
pub fn bucket(name: Option<String>, creation_date: Option<String>) -> (json: Json)
    ensures
        json@ == JsonView::Object(
            map![
                "name"@ => text_or_null(opt_view(name)),
                "creation_date"@ => text_or_null(opt_view(creation_date)),
            ],
        ),
{
    let mut out: Vec<(String, Json)> = Vec::new();
    put_field(&mut out, "name", Json::text_or_null(borrowed(&name)));
    put_field(&mut out, "creation_date", Json::text_or_null(borrowed(&creation_date)));
    Json::Object(out)
}

}
