//! Operations on S3.
use vstd::prelude::*;
use vstd::string::*;
use vstd::utf8::encode_utf8;
use vstd::utf8::encode_utf8_decode_utf8;
use vstd::utf8::encode_utf8_valid_utf8;

use crate::attribute::binary_json;
use crate::bytes::bytes_of;
use crate::bytes::encode_base64;
use crate::bytes::utf8_str;
use crate::bytes::utf8_text;
use crate::ddb::number_or_null;
use crate::json::int_or_null;
use crate::json::items_view;
use crate::json::lemma_items_push;
use crate::json::put;
use crate::json::text_or_empty;
use crate::json::text_or_null;
use crate::json::Json;
use crate::json::JsonView;
use crate::options::borrowed;
use crate::options::keep_present;
use crate::options::needed;
use crate::options::opt_view;
use crate::options::owned;
use crate::options::present;
use crate::options::require;
use crate::options::seen;
use crate::options::string_vec;
use crate::options::strings_view;
use crate::options::text_array;
use crate::options::text_list;
use crate::options::texts_json;
use crate::s3::prefix_json;
use crate::s3::show_prefix;
use crate::s3::unquoted;
use crate::s3::unquoted_text;
use crate::s3::widened;
use crate::s3::ObjectEntry;

verus! {

/// Where an object lies.
#[derive(Debug)]
pub struct ObjectAddress {
    pub bucket: String,
    pub key: String,
}

impl View for ObjectAddress {
    type V = (Seq<char>, Seq<char>);

    open spec fn view(&self) -> (Seq<char>, Seq<char>) {
        (self.bucket@, self.key@)
    }
}

/// The object that the options name, by `bucket` and `key`.
pub open spec fn object_address(opts: JsonView) -> Result<(Seq<char>, Seq<char>), Seq<char>> {
    match needed(opts, "bucket"@, "missing bucket"@) {
        Err(message) => Err(message),
        Ok(bucket) => match needed(opts, "key"@, "missing key"@) {
            Err(message) => Err(message),
            Ok(key) => Ok((bucket, key)),
        },
    }
}

/// The object that the options name: what `s3_get_object`, `s3_delete_object` and `s3_head_object`
/// ask for.
pub fn op_s3_object_request(opts: &Json) -> (address: Result<ObjectAddress, String>)
    ensures
        seen(address) == object_address(opts@),
{
    let bucket = match require(opts, "bucket", "missing bucket") {
        Ok(bucket) => bucket,
        Err(message) => return Err(message),
    };
    match require(opts, "key", "missing key") {
        Ok(key) => Ok(ObjectAddress { bucket: bucket.to_owned(), key: key.to_owned() }),
        Err(message) => Err(message),
    }
}

/// Answers with the buckets that have a name.
pub fn op_s3_list_buckets_reply(names: Vec<Option<String>>) -> (json: Json)
    ensures
        json@ == JsonView::Object(map!["buckets"@ => texts_json(present(names@))]),
{
    let mut out: Vec<(String, Json)> = Vec::new();
    put(&mut out, "buckets", text_array(&keep_present(names)));
    Json::Object(out)
}

/// Which objects to list, as contracts speak of it.
pub ghost struct ObjectsUnderView {
    pub bucket: Seq<char>,
    pub prefix: Seq<char>,
    pub delimiter: Option<Seq<char>>,
}

/// Which objects to list. With a delimiter, those with more of it in their keys are listed by their
/// common prefixes.
#[derive(Debug)]
pub struct ObjectsUnder {
    pub bucket: String,
    pub prefix: String,
    pub delimiter: Option<String>,
}

impl View for ObjectsUnder {
    type V = ObjectsUnderView;

    open spec fn view(&self) -> ObjectsUnderView {
        ObjectsUnderView {
            bucket: self.bucket@,
            prefix: self.prefix@,
            delimiter: opt_view(self.delimiter),
        }
    }
}

/// What `s3_list_objects` asks for: the objects in `bucket` under `prefix`, or under none, where
/// given grouped by `delimiter`.
pub open spec fn list_request(opts: JsonView) -> Result<ObjectsUnderView, Seq<char>> {
    match needed(opts, "bucket"@, "missing bucket"@) {
        Ok(bucket) => Ok(
            ObjectsUnderView {
                bucket,
                prefix: opts.text_field("prefix"@).unwrap_or(""@),
                delimiter: opts.text_field("delimiter"@),
            },
        ),
        Err(message) => Err(message),
    }
}

/// What `s3_list_objects` asks for.
pub fn op_s3_list_objects_request(opts: &Json) -> (under: Result<ObjectsUnder, String>)
    ensures
        seen(under) == list_request(opts@),
{
    match require(opts, "bucket", "missing bucket") {
        Ok(bucket) => {
            let prefix = opts.text_at("prefix").unwrap_or("");
            let delimiter = owned(opts.text_at("delimiter"));
            Ok(ObjectsUnder { bucket: bucket.to_owned(), prefix: prefix.to_owned(), delimiter })
        },
        Err(message) => Err(message),
    }
}

/// What is answered of an object in a list.
pub open spec fn listed_json(object: ObjectEntry) -> JsonView {
    JsonView::Object(
        map![
            "type"@ => JsonView::Text("object"@),
            "key"@ => text_or_empty(opt_view(object.key)),
            "size"@ => int_or_null(widened(object.size)),
            "etag"@ => text_or_null(unquoted(opt_view(object.etag))),
            "last_modified"@ => text_or_null(opt_view(object.last_modified)),
            "storage_class"@ => text_or_null(opt_view(object.storage_class)),
        ],
    )
}

/// Everything in a list: the common prefixes first, then the objects.
pub open spec fn listed(prefixes: Seq<Seq<char>>, objects: Seq<ObjectEntry>) -> Seq<JsonView> {
    prefixes.map_values(|p: Seq<char>| prefix_json(p)) + objects.map_values(
        |o: ObjectEntry| listed_json(o),
    )
}

/// Shows an object in a list.
fn show_listed(object: &ObjectEntry) -> (json: Json)
    ensures
        json@ == listed_json(*object),
{
    let mut out: Vec<(String, Json)> = Vec::new();
    put(&mut out, "type", Json::text("object"));
    put(&mut out, "key", Json::text_or_empty(borrowed(&object.key)));
    put(&mut out, "size", number_or_null(object.size));
    put(&mut out, "etag", unquoted_text(&object.etag));
    put(&mut out, "last_modified", Json::text_or_null(borrowed(&object.last_modified)));
    put(&mut out, "storage_class", Json::text_or_null(borrowed(&object.storage_class)));
    Json::Object(out)
}

/// Answers with the objects in a bucket, and with the common prefixes that have a name.
pub fn op_s3_list_objects_reply(
    bucket: &str,
    prefixes: Vec<Option<String>>,
    objects: &Vec<ObjectEntry>,
) -> (json: Json)
    ensures
        json@ == JsonView::Object(
            map![
                "bucket"@ => JsonView::Text(bucket@),
                "objects"@ => JsonView::Array(listed(present(prefixes@), objects@)),
            ],
        ),
{
    let names = keep_present(prefixes);
    let mut items: Vec<Json> = Vec::new();
    let ghost whole = listed(strings_view(names@), objects@);
    let ghost n = names@.len() as int;
    let mut i: usize = 0;
    while i < names.len()
        invariant
            i <= names@.len(),
            whole == listed(strings_view(names@), objects@),
            items_view(items@) == whole.take(i as int),
        decreases names@.len() - i,
    {
        let item = show_prefix(names[i].as_str());
        proof {
            lemma_items_push(items@, item);
            assert(whole[i as int] == prefix_json(names@[i as int]@));
            assert(whole.take(i + 1) =~= whole.take(i as int).push(whole[i as int]));
        }
        items.push(item);
        i = i + 1;
    }
    let mut j: usize = 0;
    while j < objects.len()
        invariant
            j <= objects@.len(),
            n == names@.len(),
            whole == listed(strings_view(names@), objects@),
            items_view(items@) == whole.take(n + j),
        decreases objects@.len() - j,
    {
        let item = show_listed(&objects[j]);
        proof {
            lemma_items_push(items@, item);
            assert(whole[n + j] == listed_json(objects@[j as int]));
            assert(whole.take(n + j + 1) =~= whole.take(n + j).push(whole[n + j]));
        }
        items.push(item);
        j = j + 1;
    }
    assert(whole.take(n + j) =~= whole);
    let mut out: Vec<(String, Json)> = Vec::new();
    put(&mut out, "bucket", Json::text(bucket));
    put(&mut out, "objects", Json::Array(items));
    Json::Object(out)
}

/// The body of an object as JSON: text where it is UTF-8, and else base64, marked as such.
pub open spec fn body_json(body: Seq<u8>) -> JsonView {
    match utf8_text(body) {
        Some(text) => JsonView::Text(text),
        None => binary_json(body),
    }
}

/// What is answered of an object that was fetched.
pub open spec fn fetched_json(bucket: Seq<char>, key: Seq<char>, body: JsonView) -> JsonView {
    JsonView::Object(
        map![
            "bucket"@ => JsonView::Text(bucket),
            "key"@ => JsonView::Text(key),
            "body"@ => body,
        ],
    )
}

/// Answers with the body of an object.
pub fn op_s3_get_object_reply(bucket: &str, key: &str, body: &[u8]) -> (json: Json)
    ensures
        json@ == fetched_json(bucket@, key@, body_json(body@)),
{
    let text = match utf8_str(body) {
        Some(text) => text.to_owned(),
        None => "base64:".to_owned().concat(encode_base64(body).as_str()),
    };
    let mut out: Vec<(String, Json)> = Vec::new();
    put(&mut out, "bucket", Json::text(bucket));
    put(&mut out, "key", Json::text(key));
    put(&mut out, "body", Json::Text(text));
    Json::Object(out)
}

/// What to upload, and where to.
#[derive(Debug)]
pub struct Upload {
    pub bucket: String,
    pub key: String,
    pub body: Vec<u8>,
}

impl View for Upload {
    type V = (Seq<char>, Seq<char>, Seq<u8>);

    open spec fn view(&self) -> (Seq<char>, Seq<char>, Seq<u8>) {
        (self.bucket@, self.key@, self.body@)
    }
}

/// What `s3_put_object` asks for: that the text `body`, or an empty one, be stored.
pub open spec fn upload(opts: JsonView) -> Result<(Seq<char>, Seq<char>, Seq<u8>), Seq<char>> {
    match object_address(opts) {
        Err(message) => Err(message),
        Ok((bucket, key)) => Ok(
            (bucket, key, encode_utf8(opts.text_field("body"@).unwrap_or(""@))),
        ),
    }
}

/// What `s3_put_object` asks for.
pub fn op_s3_put_object_request(opts: &Json) -> (what: Result<Upload, String>)
    ensures
        seen(what) == upload(opts@),
{
    let address = match op_s3_object_request(opts) {
        Ok(address) => address,
        Err(message) => return Err(message),
    };
    let body = bytes_of(opts.text_at("body").unwrap_or(""));
    Ok(Upload { bucket: address.bucket, key: address.key, body })
}

/// What was stored as text is fetched as that text.
pub proof fn law_stored_text_comes_back(opts: JsonView, text: Seq<char>)
    requires
        upload(opts) is Ok,
        opts.text_field("body"@) == Some(text),
    ensures
        body_json(upload(opts)->Ok_0.2) == JsonView::Text(text),
{
    encode_utf8_valid_utf8(text);
    encode_utf8_decode_utf8(text);
}

/// What is answered of an object that was stored.
pub open spec fn stored_json(
    bucket: Seq<char>,
    key: Seq<char>,
    etag: Option<Seq<char>>,
) -> JsonView {
    JsonView::Object(
        map![
            "bucket"@ => JsonView::Text(bucket),
            "key"@ => JsonView::Text(key),
            "etag"@ => text_or_empty(etag),
        ],
    )
}

/// Answers that an object was stored: `s3_put_object` and `s3_copy_object`.
pub fn op_s3_put_object_reply(bucket: &str, key: &str, etag: Option<String>) -> (json: Json)
    ensures
        json@ == stored_json(bucket@, key@, opt_view(etag)),
{
    let mut out: Vec<(String, Json)> = Vec::new();
    put(&mut out, "bucket", Json::text(bucket));
    put(&mut out, "key", Json::text(key));
    put(&mut out, "etag", Json::text_or_empty(borrowed(&etag)));
    Json::Object(out)
}

/// Answers that an object was deleted.
pub fn op_s3_delete_object_reply(bucket: &str, key: &str) -> (json: Json)
    ensures
        json@ == JsonView::Object(
            map![
                "bucket"@ => JsonView::Text(bucket@),
                "key"@ => JsonView::Text(key@),
                "deleted"@ => JsonView::Bool(true),
            ],
        ),
{
    crate::s3::rm(bucket, key)
}

/// The metadata of an object.
#[derive(Debug)]
pub struct ObjectHead {
    pub content_length: Option<i64>,
    pub content_type: Option<String>,
    pub etag: Option<String>,
    pub last_modified: Option<String>,
}

/// Answers with the metadata of an object.
pub fn op_s3_head_object_reply(bucket: &str, key: &str, head: &ObjectHead) -> (json: Json)
    ensures
        json@ == JsonView::Object(
            map![
                "bucket"@ => JsonView::Text(bucket@),
                "key"@ => JsonView::Text(key@),
                "content_length"@ => int_or_null(widened(head.content_length)),
                "content_type"@ => text_or_null(opt_view(head.content_type)),
                "etag"@ => text_or_null(opt_view(head.etag)),
                "last_modified"@ => text_or_null(opt_view(head.last_modified)),
            ],
        ),
{
    let mut out: Vec<(String, Json)> = Vec::new();
    put(&mut out, "bucket", Json::text(bucket));
    put(&mut out, "key", Json::text(key));
    put(&mut out, "content_length", number_or_null(head.content_length));
    put(&mut out, "content_type", Json::text_or_null(borrowed(&head.content_type)));
    put(&mut out, "etag", Json::text_or_null(borrowed(&head.etag)));
    put(&mut out, "last_modified", Json::text_or_null(borrowed(&head.last_modified)));
    Json::Object(out)
}

/// What to copy, and where to.
#[derive(Debug)]
pub struct Copying {
    pub source: String,
    pub bucket: String,
    pub key: String,
}

impl View for Copying {
    type V = (Seq<char>, Seq<char>, Seq<char>);

    open spec fn view(&self) -> (Seq<char>, Seq<char>, Seq<char>) {
        (self.source@, self.bucket@, self.key@)
    }
}

/// What `s3_copy_object` asks for: the source is written as `bucket/key`.
pub open spec fn copying(opts: JsonView) -> Result<(Seq<char>, Seq<char>, Seq<char>), Seq<char>> {
    match needed(opts, "source_bucket"@, "missing source_bucket"@) {
        Err(message) => Err(message),
        Ok(from) => match needed(opts, "source_key"@, "missing source_key"@) {
            Err(message) => Err(message),
            Ok(name) => match object_address(opts) {
                Err(message) => Err(message),
                Ok((bucket, key)) => Ok((from + "/"@ + name, bucket, key)),
            },
        },
    }
}

/// What `s3_copy_object` asks for.
pub fn op_s3_copy_object_request(opts: &Json) -> (what: Result<Copying, String>)
    ensures
        seen(what) == copying(opts@),
{
    let from = match require(opts, "source_bucket", "missing source_bucket") {
        Ok(from) => from,
        Err(message) => return Err(message),
    };
    let name = match require(opts, "source_key", "missing source_key") {
        Ok(name) => name,
        Err(message) => return Err(message),
    };
    let address = match op_s3_object_request(opts) {
        Ok(address) => address,
        Err(message) => return Err(message),
    };
    let source = from.to_owned().concat("/").concat(name);
    Ok(Copying { source, bucket: address.bucket, key: address.key })
}

/// Which objects to delete.
#[derive(Debug)]
pub struct Deletion {
    pub bucket: String,
    pub keys: Vec<String>,
}

impl View for Deletion {
    type V = (Seq<char>, Seq<Seq<char>>);

    open spec fn view(&self) -> (Seq<char>, Seq<Seq<char>>) {
        (self.bucket@, strings_view(self.keys@))
    }
}

/// What `s3_delete_objects` asks for: at least one key, or a list of them.
pub open spec fn deletion(opts: JsonView) -> Result<(Seq<char>, Seq<Seq<char>>), Seq<char>> {
    match needed(opts, "bucket"@, "missing bucket"@) {
        Err(message) => Err(message),
        Ok(bucket) => match text_list(opts.at("keys"@)) {
            Err(message) => Err(message),
            Ok(keys) => if keys.len() == 0 {
                Err("keys must be a non-empty array"@)
            } else {
                Ok((bucket, keys))
            },
        },
    }
}

/// The texts under `name`.
pub(crate) fn texts_at(opts: &Json, name: &str) -> (list: Result<Vec<String>, String>)
    ensures
        match list {
            Ok(texts) => text_list(opts@.at(name@)) == Ok::<Seq<Seq<char>>, Seq<char>>(
                strings_view(texts@),
            ),
            Err(message) => text_list(opts@.at(name@)) == Err::<Seq<Seq<char>>, Seq<char>>(
                message@,
            ),
        },
{
    match opts.get(name) {
        Some(value) => string_vec(value),
        None => string_vec(&Json::Null),
    }
}

/// What `s3_delete_objects` asks for.
pub fn op_s3_delete_objects_request(opts: &Json) -> (what: Result<Deletion, String>)
    ensures
        seen(what) == deletion(opts@),
{
    let bucket = match require(opts, "bucket", "missing bucket") {
        Ok(bucket) => bucket,
        Err(message) => return Err(message),
    };
    let keys = match texts_at(opts, "keys") {
        Ok(keys) => keys,
        Err(message) => return Err(message),
    };
    if keys.len() == 0 {
        return Err("keys must be a non-empty array".to_owned());
    }
    Ok(Deletion { bucket: bucket.to_owned(), keys })
}

/// Answers with the keys of the objects that were deleted.
pub fn op_s3_delete_objects_reply(bucket: &str, deleted: Vec<Option<String>>) -> (json: Json)
    ensures
        json@ == JsonView::Object(
            map![
                "bucket"@ => JsonView::Text(bucket@),
                "deleted"@ => texts_json(present(deleted@)),
            ],
        ),
{
    let mut out: Vec<(String, Json)> = Vec::new();
    put(&mut out, "bucket", Json::text(bucket));
    put(&mut out, "deleted", text_array(&keep_present(deleted)));
    Json::Object(out)
}

}
