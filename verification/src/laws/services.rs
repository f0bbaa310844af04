//! Laws on what the operations ask of a service, and on what they answer, whatever they return.
use vstd::prelude::*;
use vstd::string::*;

use crate::bytes::base64_text;
use crate::bytes::utf8_text;
use crate::json::int_json;
use crate::json::number_text;
use crate::json::float_number;
use crate::json::Json;
use crate::json::JsonView;
use crate::ops::cloudwatch::op_cloudwatch_list_metrics_reply;
use crate::ops::cloudwatch::op_cloudwatch_list_metrics_request;
use crate::ops::cloudwatch::op_cloudwatch_put_metric_reply;
use crate::ops::cloudwatch::op_cloudwatch_put_metric_request;
use crate::ops::cloudwatch::Metric;
use crate::ops::cloudwatch::MetricEntry;
use crate::ops::cloudwatch::MetricFilter;
use crate::ops::lambda::op_lambda_invoke_reply;
use crate::ops::lambda::op_lambda_invoke_request;
use crate::ops::lambda::op_lambda_list_functions_reply;
use crate::ops::lambda::Invoking;
use crate::ops::s3::op_s3_copy_object_request;
use crate::ops::s3::op_s3_delete_object_reply;
use crate::ops::s3::op_s3_delete_objects_reply;
use crate::ops::s3::op_s3_delete_objects_request;
use crate::ops::s3::op_s3_get_object_reply;
use crate::ops::s3::op_s3_head_object_reply;
use crate::ops::s3::op_s3_list_buckets_reply;
use crate::ops::s3::op_s3_list_objects_reply;
use crate::ops::s3::op_s3_list_objects_request;
use crate::ops::s3::op_s3_object_request;
use crate::ops::s3::op_s3_put_object_reply;
use crate::ops::s3::op_s3_put_object_request;
use crate::ops::s3::Copying;
use crate::ops::s3::Deletion;
use crate::ops::s3::ObjectAddress;
use crate::ops::s3::ObjectHead;
use crate::ops::s3::ObjectsUnder;
use crate::ops::s3::Upload;
use crate::ops::secrets::op_secrets_create_reply;
use crate::ops::secrets::op_secrets_create_request;
use crate::ops::secrets::op_secrets_get_value_reply;
use crate::ops::secrets::op_secrets_get_value_request;
use crate::ops::secrets::op_secrets_list_reply;
use crate::ops::secrets::op_secrets_put_value_reply;
use crate::ops::secrets::op_secrets_put_value_request;
use crate::ops::secrets::Secret;
use crate::ops::secrets::SecretEntry;
use crate::ops::ses::op_ses_send_email_reply;
use crate::ops::ses::op_ses_send_email_request;
use crate::ops::ses::Email;
use crate::ops::sns::op_sns_create_topic_reply;
use crate::ops::sns::op_sns_create_topic_request;
use crate::ops::sns::op_sns_list_topics_reply;
use crate::ops::sns::op_sns_publish_reply;
use crate::ops::sns::op_sns_publish_request;
use crate::ops::sns::op_sns_subscribe_reply;
use crate::ops::sns::op_sns_subscribe_request;
use crate::ops::sns::Publication;
use crate::ops::sns::Subscription;
use crate::ops::sns::Target;
use crate::ops::sqs::op_sqs_delete_message_reply;
use crate::ops::sqs::op_sqs_delete_message_request;
use crate::ops::sqs::op_sqs_get_queue_attributes_reply;
use crate::ops::sqs::op_sqs_list_queues_reply;
use crate::ops::sqs::op_sqs_purge_queue_reply;
use crate::ops::sqs::op_sqs_queue_request;
use crate::ops::sqs::op_sqs_receive_message_reply;
use crate::ops::sqs::op_sqs_receive_message_request;
use crate::ops::sqs::op_sqs_send_message_reply;
use crate::ops::sqs::op_sqs_send_message_request;
use crate::ops::sqs::Incoming;
use crate::ops::sqs::Outgoing;
use crate::ops::sqs::Receipt;
use crate::ops::sqs::Received;
use crate::ops::ssm::op_ssm_delete_parameter_reply;
use crate::ops::ssm::op_ssm_delete_parameter_request;
use crate::ops::ssm::op_ssm_get_parameter_reply;
use crate::ops::ssm::op_ssm_get_parameter_request;
use crate::ops::ssm::op_ssm_get_parameters_by_path_reply;
use crate::ops::ssm::op_ssm_get_parameters_by_path_request;
use crate::ops::ssm::op_ssm_put_parameter_reply;
use crate::ops::ssm::op_ssm_put_parameter_request;
use crate::ops::ssm::Browsing;
use crate::ops::ssm::Parameter;
use crate::ops::ssm::ParameterEntry;
use crate::ops::ssm::Reading;
use crate::ops::ssm::Writing;
use crate::ops::sts::op_sts_assume_role_reply;
use crate::ops::sts::op_sts_assume_role_request;
use crate::ops::sts::op_sts_caller_identity_reply;
use crate::ops::sts::Role;
use crate::options::present;
use crate::options::strings_view;
use crate::options::texts_json;
use crate::s3::unquoted;
use crate::s3::ObjectEntry;
use crate::sqs::texts_by_name;
use crate::sts::Credentials;
use crate::wire::json_text;
use crate::wire::parsed_json;
use vstd::utf8::encode_utf8;

verus! {

/// The text that an object has under a name, if it is one.
pub open spec fn given(opts: JsonView, name: Seq<char>) -> Option<Seq<char>> {
    match opts {
        JsonView::Object(fields) => if fields.dom().contains(name) {
            match fields[name] {
                JsonView::Text(text) => Some(text),
                _ => None,
            }
        } else {
            None
        },
        _ => None,
    }
}

/// An object that has `true` under a name.
pub open spec fn says_so(opts: JsonView, name: Seq<char>) -> bool {
    opts matches JsonView::Object(fields) && fields.dom().contains(name) && fields[name]
        == JsonView::Bool(true)
}

/// An optional text that is the given one, or is missing where that is.
pub open spec fn same_text(text: Option<String>, other: Option<Seq<char>>) -> bool {
    match (text, other) {
        (Some(t), Some(o)) => t@ == o,
        (None, None) => true,
        _ => false,
    }
}

/// A refusal with a message.
pub open spec fn refused<T>(result: Result<T, String>, message: Seq<char>) -> bool {
    result matches Err(why) && why@ == message
}

/// A text as JSON, or what stands for a missing one.
pub open spec fn text_or(text: Option<String>, otherwise: JsonView) -> JsonView {
    match text {
        Some(t) => JsonView::Text(t@),
        None => otherwise,
    }
}

/// The empty text as JSON.
pub open spec fn nothing() -> JsonView {
    JsonView::Text(Seq::empty())
}

/// A number as JSON, or null for a missing one.
pub open spec fn number_or_null(n: Option<i64>) -> JsonView {
    match n {
        Some(k) => int_json(k as int),
        None => JsonView::Null,
    }
}

proof fn lemma_nothing()
    ensures
        JsonView::Text(""@) == nothing(),
{
    reveal_strlit("");
    assert(""@ =~= Seq::<char>::empty());
}

/// An object in S3 is named by a bucket and a key, and neither may be missing.
pub proof fn law_object_is_named(opts: &Json, address: Result<ObjectAddress, String>)
    requires
        call_ensures(op_s3_object_request, (opts,), address),
    ensures
        match (given(opts@, "bucket"@), given(opts@, "key"@)) {
            (Some(bucket), Some(key)) => address matches Ok(a) && a.bucket@ == bucket && a.key@ == key,
            (Some(_), None) => refused(address, "missing key"@),
            (None, _) => refused(address, "missing bucket"@),
        },
{
}

/// A listing is of a bucket, under the prefix that is given, or under the empty one, and with the
/// delimiter that is given, if any.
pub proof fn law_listing_is_asked_for(opts: &Json, under: Result<ObjectsUnder, String>)
    requires
        call_ensures(op_s3_list_objects_request, (opts,), under),
    ensures
        match given(opts@, "bucket"@) {
            Some(bucket) => {
                &&& under matches Ok(u)
                &&& u.bucket@ == bucket
                &&& u.prefix@ == match given(opts@, "prefix"@) {
                    Some(prefix) => prefix,
                    None => Seq::empty(),
                }
                &&& same_text(u.delimiter, given(opts@, "delimiter"@))
            },
            None => refused(under, "missing bucket"@),
        },
{
    lemma_nothing();
}

/// The text that is given is stored as its UTF-8 bytes; without one, nothing is.
pub proof fn law_upload_is_asked_for(opts: &Json, what: Result<Upload, String>)
    requires
        call_ensures(op_s3_put_object_request, (opts,), what),
    ensures
        match (given(opts@, "bucket"@), given(opts@, "key"@)) {
            (Some(bucket), Some(key)) => {
                &&& what matches Ok(u)
                &&& u.bucket@ == bucket && u.key@ == key
                &&& u.body@ == match given(opts@, "body"@) {
                    Some(body) => encode_utf8(body),
                    None => Seq::empty(),
                }
            },
            (Some(_), None) => refused(what, "missing key"@),
            (None, _) => refused(what, "missing bucket"@),
        },
{
    lemma_nothing();
    assert(encode_utf8(Seq::empty()) =~= Seq::<u8>::empty());
}

/// A copy is of the object that `source_bucket` and `source_key` name, written with a slash between
/// them, to the one that `bucket` and `key` name.
pub proof fn law_copy_is_asked_for(opts: &Json, what: Result<Copying, String>)
    requires
        call_ensures(op_s3_copy_object_request, (opts,), what),
    ensures
        match (given(opts@, "source_bucket"@), given(opts@, "source_key"@)) {
            (Some(from), Some(name)) => match (given(opts@, "bucket"@), given(opts@, "key"@)) {
                (Some(bucket), Some(key)) => {
                    &&& what matches Ok(c)
                    &&& c.source@ == from + seq!['/'] + name && c.bucket@ == bucket && c.key@ == key
                },
                (Some(_), None) => refused(what, "missing key"@),
                (None, _) => refused(what, "missing bucket"@),
            },
            (Some(_), None) => refused(what, "missing source_key"@),
            (None, _) => refused(what, "missing source_bucket"@),
        },
{
    reveal_strlit("/");
    assert("/"@ =~= seq!['/']);
}

/// Objects are deleted by one key, or by all of an array, in its order; by none it is refused, and so
/// is an array that holds anything but texts.
pub proof fn law_deletion_is_asked_for(opts: &Json, what: Result<Deletion, String>)
    requires
        call_ensures(op_s3_delete_objects_request, (opts,), what),
    ensures
        match given(opts@, "bucket"@) {
            None => refused(what, "missing bucket"@),
            Some(bucket) => match opts@.at("keys"@) {
                JsonView::Text(key) => what matches Ok(d) && d.bucket@ == bucket && d.keys@.len() == 1
                    && d.keys@[0]@ == key,
                JsonView::Array(items) => if items.len() == 0 {
                    refused(what, "keys must be a non-empty array"@)
                } else if forall|i: int| 0 <= i < items.len() ==> (#[trigger] items[i]) is Text {
                    &&& what matches Ok(d)
                    &&& d.bucket@ == bucket && d.keys@.len() == items.len()
                    &&& forall|i: int|
                        0 <= i < items.len() ==> #[trigger] items[i] == JsonView::Text(d.keys@[i]@)
                } else {
                    refused(what, "non-string in array"@)
                },
                JsonView::Null => refused(what, "keys must be a non-empty array"@),
                _ => refused(what, "expected string or array of strings"@),
            },
        },
{
    if let Ok(d) = what {
        let keys = strings_view(d.keys@);
        assert(forall|i: int| 0 <= i < keys.len() ==> d.keys@[i]@ == #[trigger] keys[i]);
        if let JsonView::Array(items) = opts@.at("keys"@) {
            assert forall|i: int| 0 <= i < items.len() implies #[trigger] items[i]
                == JsonView::Text(d.keys@[i]@) by {
                assert(keys[i] == d.keys@[i]@);
                assert(items[i] is Text);
            }
        } else if let JsonView::Text(key) = opts@.at("keys"@) {
            assert(keys[0] == key);
        }
    }
}

/// What is answered of buckets, of an object that was fetched, stored or deleted, and of its metadata.
/// A body that is no text is answered as base64, marked as such.
pub proof fn law_object_is_answered(
    bucket: &str,
    key: &str,
    body: &[u8],
    etag: Option<String>,
    head: &ObjectHead,
    names: Vec<Option<String>>,
    answers: (Json, Json, Json, Json, Json, Json),
)
    requires
        call_ensures(op_s3_get_object_reply, (bucket, key, body), answers.0),
        call_ensures(op_s3_put_object_reply, (bucket, key, etag), answers.1),
        call_ensures(op_s3_delete_object_reply, (bucket, key), answers.2),
        call_ensures(op_s3_head_object_reply, (bucket, key, head), answers.3),
        call_ensures(op_s3_list_buckets_reply, (names,), answers.4),
        call_ensures(op_s3_delete_objects_reply, (bucket, names), answers.5),
    ensures
        answers.0@ == JsonView::Object(
            map![
                "bucket"@ => JsonView::Text(bucket@),
                "key"@ => JsonView::Text(key@),
                "body"@ => JsonView::Text(
                    match utf8_text(body@) {
                        Some(text) => text,
                        None => "base64:"@ + base64_text(body@),
                    },
                ),
            ],
        ),
        answers.1@ == JsonView::Object(
            map![
                "bucket"@ => JsonView::Text(bucket@),
                "key"@ => JsonView::Text(key@),
                "etag"@ => text_or(etag, nothing()),
            ],
        ),
        answers.2@ == JsonView::Object(
            map![
                "bucket"@ => JsonView::Text(bucket@),
                "key"@ => JsonView::Text(key@),
                "deleted"@ => JsonView::Bool(true),
            ],
        ),
        answers.3@ == JsonView::Object(
            map![
                "bucket"@ => JsonView::Text(bucket@),
                "key"@ => JsonView::Text(key@),
                "content_length"@ => number_or_null(head.content_length),
                "content_type"@ => text_or(head.content_type, JsonView::Null),
                "etag"@ => text_or(head.etag, JsonView::Null),
                "last_modified"@ => text_or(head.last_modified, JsonView::Null),
            ],
        ),
        answers.4@ == JsonView::Object(map!["buckets"@ => texts_json(present(names@))]),
        answers.5@ == JsonView::Object(
            map![
                "bucket"@ => JsonView::Text(bucket@),
                "deleted"@ => texts_json(present(names@)),
            ],
        ),
{
    lemma_nothing();
}

/// What is answered of a listing: the common prefixes that have a name come first, then the objects,
/// all in their order.
pub proof fn law_listing_is_answered(
    bucket: &str,
    prefixes: Vec<Option<String>>,
    objects: &Vec<ObjectEntry>,
    answer: Json,
)
    requires
        call_ensures(op_s3_list_objects_reply, (bucket, prefixes, objects), answer),
    ensures
        answer@.text_field("bucket"@) == Some(bucket@),
        answer@->Object_0.dom() == set!["bucket"@, "objects"@],
        ({
            let names = present(prefixes@);
            &&& answer@.items_field("objects"@) matches Some(items)
            &&& items.len() == names.len() + objects@.len()
            &&& forall|i: int|
                0 <= i < names.len() ==> #[trigger] items[i] == JsonView::Object(
                    map!["type"@ => JsonView::Text("prefix"@), "key"@ => JsonView::Text(names[i])],
                )
            &&& forall|i: int|
                0 <= i < objects@.len() ==> #[trigger] items[names.len() + i] == JsonView::Object(
                    map![
                        "type"@ => JsonView::Text("object"@),
                        "key"@ => text_or(objects@[i].key, nothing()),
                        "size"@ => number_or_null(objects@[i].size),
                        "etag"@ => match objects@[i].etag {
                            Some(etag) => JsonView::Text(unquoted(Some(etag@)).unwrap()),
                            None => JsonView::Null,
                        },
                        "last_modified"@ => text_or(objects@[i].last_modified, JsonView::Null),
                        "storage_class"@ => text_or(objects@[i].storage_class, JsonView::Null),
                    ],
                )
        }),
{
    lemma_nothing();
    reveal_strlit("bucket");
    reveal_strlit("objects");
    assert("bucket"@.len() == 6 && "objects"@.len() == 7);
    assert(answer@->Object_0.dom() =~= set!["bucket"@, "objects"@]);
}

/// The requests to SQS. A message keeps all that is given for it; one message is received where the
/// options do not say how many.
pub proof fn law_queue_is_asked(
    opts: &Json,
    queue: Result<String, String>,
    message: Result<Outgoing, String>,
    what: Result<Incoming, String>,
    receipt: Result<Receipt, String>,
)
    requires
        call_ensures(op_sqs_queue_request, (opts,), queue),
        call_ensures(op_sqs_send_message_request, (opts,), message),
        call_ensures(op_sqs_receive_message_request, (opts,), what),
        call_ensures(op_sqs_delete_message_request, (opts,), receipt),
    ensures
        match given(opts@, "queue_url"@) {
            None => {
                &&& refused(queue, "missing queue_url"@)
                &&& refused(message, "missing queue_url"@)
                &&& refused(what, "missing queue_url"@)
                &&& refused(receipt, "missing queue_url"@)
            },
            Some(url) => {
                &&& queue matches Ok(q) && q@ == url
                &&& match given(opts@, "body"@) {
                    None => refused(message, "missing body"@),
                    Some(body) => {
                        &&& message matches Ok(m)
                        &&& m.queue_url@ == url && m.body@ == body
                        &&& m.delay_seconds == match opts@.int_field("delay_seconds"@) {
                            Some(n) => Some(n as i32),
                            None => None,
                        }
                        &&& same_text(m.dedup_id, given(opts@, "dedup_id"@))
                        &&& same_text(m.group_id, given(opts@, "group_id"@))
                    },
                }
                &&& what matches Ok(w)
                &&& w.queue_url@ == url
                &&& w.max == match opts@.int_field("max"@) {
                    Some(n) => n as i32,
                    None => 1,
                }
                &&& w.wait == match opts@.int_field("wait"@) {
                    Some(n) => Some(n as i32),
                    None => None,
                }
                &&& w.visibility == match opts@.int_field("visibility"@) {
                    Some(n) => Some(n as i32),
                    None => None,
                }
                &&& match given(opts@, "receipt_handle"@) {
                    None => refused(receipt, "missing receipt_handle"@),
                    Some(handle) => receipt matches Ok(r) && r.queue_url@ == url && r.receipt_handle@
                        == handle,
                }
            },
        },
{
}

/// What is answered of queues and messages.
pub proof fn law_queue_is_answered(
    url: &str,
    id: Option<String>,
    messages: &Vec<Received>,
    attributes: &Vec<(String, String)>,
    urls: &Vec<String>,
    answers: (Json, Json, Json, Json, Json, Json),
)
    requires
        call_ensures(op_sqs_purge_queue_reply, (url,), answers.0),
        call_ensures(op_sqs_get_queue_attributes_reply, (url, attributes), answers.1),
        call_ensures(op_sqs_list_queues_reply, (urls,), answers.2),
        call_ensures(op_sqs_send_message_reply, (url, id), answers.3),
        call_ensures(op_sqs_receive_message_reply, (url, messages), answers.4),
        call_ensures(op_sqs_delete_message_reply, (), answers.5),
    ensures
        answers.0@ == JsonView::Object(
            map!["queue_url"@ => JsonView::Text(url@), "purged"@ => JsonView::Bool(true)],
        ),
        answers.1@ == JsonView::Object(
            map![
                "queue_url"@ => JsonView::Text(url@),
                "attributes"@ => JsonView::Object(texts_by_name(attributes@)),
            ],
        ),
        answers.2@ == JsonView::Object(map!["queues"@ => texts_json(strings_view(urls@))]),
        answers.3@ == JsonView::Object(
            map!["queue_url"@ => JsonView::Text(url@), "message_id"@ => text_or(id, nothing())],
        ),
        ({
            &&& answers.4@.text_field("queue_url"@) == Some(url@)
            &&& answers.4@.items_field("messages"@) matches Some(items)
            &&& items.len() == messages@.len()
            &&& forall|i: int|
                0 <= i < items.len() ==> #[trigger] items[i] == JsonView::Object(
                    map![
                        "message_id"@ => text_or(messages@[i].message_id, nothing()),
                        "receipt_handle"@ => text_or(messages@[i].receipt_handle, nothing()),
                        "body"@ => text_or(messages@[i].body, nothing()),
                    ],
                )
        }),
        answers.5@ == JsonView::Object(map!["deleted"@ => JsonView::Bool(true)]),
{
    lemma_nothing();
    reveal_strlit("queue_url");
    reveal_strlit("messages");
    assert("queue_url"@.len() == 9 && "messages"@.len() == 8);
}

/// A function is invoked with the text of `payload`, or of null; what it answers is given as the JSON
/// that it is, and else as text. An answer that is no text counts as an empty one.
pub proof fn law_function_is_invoked(
    opts: &Json,
    what: Result<Invoking, String>,
    function: &str,
    status: i32,
    payload: Option<Vec<u8>>,
    names: Vec<Option<String>>,
    answer: Json,
    list: Json,
)
    requires
        call_ensures(op_lambda_invoke_request, (opts,), what),
        call_ensures(op_lambda_invoke_reply, (function, status, payload), answer),
        call_ensures(op_lambda_list_functions_reply, (names,), list),
    ensures
        match given(opts@, "function"@) {
            None => refused(what, "missing function"@),
            Some(name) => {
                &&& what matches Ok(w)
                &&& w.function@ == name
                &&& w.payload@ == json_text(
                    if opts@ matches JsonView::Object(fields) && fields.dom().contains("payload"@) {
                        opts@->Object_0["payload"@]
                    } else {
                        JsonView::Null
                    },
                )
            },
        },
        ({
            let text = match payload {
                Some(bytes) => match utf8_text(bytes@) {
                    Some(text) => text,
                    None => Seq::empty(),
                },
                None => Seq::empty(),
            };
            answer@ == JsonView::Object(
                map![
                    "function"@ => JsonView::Text(function@),
                    "status_code"@ => int_json(status as int),
                    "result"@ => match parsed_json(text) {
                        Ok(json) => json,
                        Err(_) => JsonView::Text(text),
                    },
                ],
            )
        }),
        list@ == JsonView::Object(map!["functions"@ => texts_json(present(names@))]),
{
    lemma_nothing();
}

/// A message is published to the topic that is given; without one, to the phone; without that, to the
/// other target; without any of them it is refused.
pub proof fn law_message_is_published(
    opts: &Json,
    what: Result<Publication, String>,
    topic: Result<String, String>,
    sub: Result<Subscription, String>,
)
    requires
        call_ensures(op_sns_publish_request, (opts,), what),
        call_ensures(op_sns_create_topic_request, (opts,), topic),
        call_ensures(op_sns_subscribe_request, (opts,), sub),
    ensures
        ({
            let (arn, phone, other) = (
                given(opts@, "topic_arn"@),
                given(opts@, "phone_number"@),
                given(opts@, "target_arn"@),
            );
            match given(opts@, "message"@) {
                None => refused(what, "missing message"@),
                Some(message) => if arn is None && phone is None && other is None {
                    refused(what, "need topic_arn, target_arn, or phone_number"@)
                } else {
                    &&& what matches Ok(p)
                    &&& p.message@ == message
                    &&& same_text(p.subject, given(opts@, "subject"@))
                    &&& match p.target {
                        Target::Topic(text) => arn == Some(text@),
                        Target::Phone(text) => arn is None && phone == Some(text@),
                        Target::Target(text) => arn is None && phone is None && other == Some(
                            text@,
                        ),
                    }
                },
            }
        }),
        match given(opts@, "name"@) {
            None => refused(topic, "missing name"@),
            Some(name) => topic matches Ok(t) && t@ == name,
        },
        match (given(opts@, "topic_arn"@), given(opts@, "protocol"@), given(opts@, "endpoint"@)) {
            (Some(arn), Some(protocol), Some(endpoint)) => sub matches Ok(s) && s.topic_arn@ == arn
                && s.protocol@ == protocol && s.endpoint@ == endpoint,
            (None, _, _) => refused(sub, "missing topic_arn"@),
            (_, None, _) => refused(sub, "missing protocol"@),
            (_, _, None) => refused(sub, "missing endpoint"@),
        },
{
}

/// What is answered of topics, publications and emails.
pub proof fn law_messages_are_answered(
    arns: Vec<Option<String>>,
    id: Option<String>,
    answers: (Json, Json, Json, Json, Json),
)
    requires
        call_ensures(op_sns_list_topics_reply, (arns,), answers.0),
        call_ensures(op_sns_publish_reply, (id,), answers.1),
        call_ensures(op_sns_create_topic_reply, (id,), answers.2),
        call_ensures(op_sns_subscribe_reply, (id,), answers.3),
        call_ensures(op_ses_send_email_reply, (id,), answers.4),
    ensures
        answers.0@ == JsonView::Object(map!["topics"@ => texts_json(present(arns@))]),
        answers.1@ == JsonView::Object(map!["message_id"@ => text_or(id, nothing())]),
        answers.2@ == JsonView::Object(map!["topic_arn"@ => text_or(id, nothing())]),
        answers.3@ == JsonView::Object(map!["subscription_arn"@ => text_or(id, nothing())]),
        answers.4@ == JsonView::Object(map!["message_id"@ => text_or(id, nothing())]),
{
    lemma_nothing();
}

/// An email goes to one recipient or to all of an array, in plain text unless `html` is true; what is
/// not given of its subject and body is empty.
pub proof fn law_email_is_asked_for(opts: &Json, email: Result<Email, String>)
    requires
        call_ensures(op_ses_send_email_request, (opts,), email),
    ensures
        match given(opts@, "from"@) {
            None => refused(email, "missing from"@),
            Some(from) => {
                &&& email matches Ok(e) ==> {
                    &&& e.from@ == from
                    &&& e.subject@ == match given(opts@, "subject"@) {
                        Some(subject) => subject,
                        None => Seq::empty(),
                    }
                    &&& e.body@ == match given(opts@, "body"@) {
                        Some(body) => body,
                        None => Seq::empty(),
                    }
                    &&& e.html <==> says_so(opts@, "html"@)
                }
                &&& match opts@.at("to"@) {
                    JsonView::Text(to) => email matches Ok(e) && e.to@.len() == 1 && e.to@[0]@ == to,
                    JsonView::Array(items) => if items.len() == 0 {
                        refused(email, "to must name at least one recipient"@)
                    } else if forall|i: int| 0 <= i < items.len() ==> (#[trigger] items[i]) is Text {
                        &&& email matches Ok(e)
                        &&& e.to@.len() == items.len()
                        &&& forall|i: int|
                            0 <= i < items.len() ==> #[trigger] items[i] == JsonView::Text(
                                e.to@[i]@,
                            )
                    } else {
                        refused(email, "non-string in array"@)
                    },
                    JsonView::Null => refused(email, "to must name at least one recipient"@),
                    _ => refused(email, "expected string or array of strings"@),
                }
            },
        },
{
    lemma_nothing();
    if let Ok(e) = email {
        let to = strings_view(e.to@);
        assert(forall|i: int| 0 <= i < to.len() ==> e.to@[i]@ == #[trigger] to[i]);
        if let JsonView::Array(items) = opts@.at("to"@) {
            assert forall|i: int| 0 <= i < items.len() implies #[trigger] items[i]
                == JsonView::Text(e.to@[i]@) by {
                assert(to[i] == e.to@[i]@);
                assert(items[i] is Text);
            }
        } else if let JsonView::Text(one) = opts@.at("to"@) {
            assert(to[0] == one);
        }
    }
}

/// The requests to SSM. Nothing is decrypted, replaced or read recursively unless the options say so,
/// and a parameter is a `String` unless they name another type.
pub proof fn law_parameter_is_asked_for(
    opts: &Json,
    read: Result<Reading, String>,
    written: Result<Writing, String>,
    browsed: Result<Browsing, String>,
    deleted: Result<String, String>,
)
    requires
        call_ensures(op_ssm_get_parameter_request, (opts,), read),
        call_ensures(op_ssm_put_parameter_request, (opts,), written),
        call_ensures(op_ssm_get_parameters_by_path_request, (opts,), browsed),
        call_ensures(op_ssm_delete_parameter_request, (opts,), deleted),
    ensures
        match given(opts@, "name"@) {
            None => refused(read, "missing name"@) && refused(written, "missing name"@) && refused(
                deleted,
                "missing name"@,
            ),
            Some(name) => {
                &&& read matches Ok(r)
                &&& r.name@ == name
                &&& r.decrypt <==> says_so(opts@, "with_decryption"@)
                &&& match given(opts@, "value"@) {
                    None => refused(written, "missing value"@),
                    Some(value) => {
                        &&& written matches Ok(w)
                        &&& w.name@ == name && w.value@ == value
                        &&& w.kind@ == match given(opts@, "type"@) {
                            Some(kind) => kind,
                            None => "String"@,
                        }
                        &&& w.overwrite <==> says_so(opts@, "overwrite"@)
                    },
                }
                &&& deleted matches Ok(d)
                &&& d@ == name
            },
        },
        match given(opts@, "path"@) {
            None => refused(browsed, "missing path"@),
            Some(path) => {
                &&& browsed matches Ok(b)
                &&& b.path@ == path
                &&& b.recursive <==> says_so(opts@, "recursive"@)
                &&& b.decrypt <==> says_so(opts@, "with_decryption"@)
            },
        },
{
}

/// What is answered of parameters.
pub proof fn law_parameter_is_answered(
    parameter: Option<Parameter>,
    name: &str,
    version: i64,
    entries: &Vec<ParameterEntry>,
    answers: (Json, Json, Json, Json),
)
    requires
        call_ensures(op_ssm_get_parameter_reply, (parameter,), answers.0),
        call_ensures(op_ssm_put_parameter_reply, (name, version), answers.1),
        call_ensures(op_ssm_get_parameters_by_path_reply, (entries,), answers.2),
        call_ensures(op_ssm_delete_parameter_reply, (name,), answers.3),
    ensures
        answers.0@ == JsonView::Object(
            match parameter {
                Some(p) => map![
                    "name"@ => text_or(p.name, nothing()),
                    "value"@ => text_or(p.value, JsonView::Null),
                    "version"@ => int_json(p.version as int),
                ],
                None => map![
                    "name"@ => nothing(),
                    "value"@ => JsonView::Null,
                    "version"@ => int_json(0),
                ],
            },
        ),
        answers.1@ == JsonView::Object(
            map!["name"@ => JsonView::Text(name@), "version"@ => int_json(version as int)],
        ),
        ({
            &&& answers.2@.items_field("parameters"@) matches Some(items)
            &&& answers.2@->Object_0.dom() == set!["parameters"@]
            &&& items.len() == entries@.len()
            &&& forall|i: int|
                0 <= i < items.len() ==> #[trigger] items[i] == JsonView::Object(
                    map![
                        "name"@ => text_or(entries@[i].name, nothing()),
                        "value"@ => text_or(entries@[i].value, JsonView::Null),
                    ],
                )
        }),
        answers.3@ == JsonView::Object(
            map!["name"@ => JsonView::Text(name@), "deleted"@ => JsonView::Bool(true)],
        ),
{
    lemma_nothing();
    assert(answers.2@->Object_0.dom() =~= set!["parameters"@]);
}

/// The requests to Secrets Manager: a new secret goes by its name, one that is there by its ID.
pub proof fn law_secret_is_asked_for(
    opts: &Json,
    id: Result<String, String>,
    made: Result<Secret, String>,
    changed: Result<Secret, String>,
)
    requires
        call_ensures(op_secrets_get_value_request, (opts,), id),
        call_ensures(op_secrets_create_request, (opts,), made),
        call_ensures(op_secrets_put_value_request, (opts,), changed),
    ensures
        match given(opts@, "secret_id"@) {
            None => refused(id, "missing secret_id"@) && refused(changed, "missing secret_id"@),
            Some(secret_id) => {
                &&& id matches Ok(i) && i@ == secret_id
                &&& match given(opts@, "secret_string"@) {
                    None => refused(changed, "missing secret_string"@),
                    Some(text) => changed matches Ok(c) && c.id@ == secret_id && c.secret_string@
                        == text,
                }
            },
        },
        match (given(opts@, "name"@), given(opts@, "secret_string"@)) {
            (None, _) => refused(made, "missing name"@),
            (_, None) => refused(made, "missing secret_string"@),
            (Some(name), Some(text)) => made matches Ok(m) && m.id@ == name && m.secret_string@ == text,
        },
{
}

/// What is answered of secrets.
pub proof fn law_secret_is_answered(
    name: Option<String>,
    text: Option<String>,
    version: Option<String>,
    arn: Option<String>,
    entries: &Vec<SecretEntry>,
    answers: (Json, Json, Json, Json),
)
    requires
        call_ensures(op_secrets_get_value_reply, (name, text, version), answers.0),
        call_ensures(op_secrets_create_reply, (arn, name), answers.1),
        call_ensures(op_secrets_put_value_reply, (version,), answers.2),
        call_ensures(op_secrets_list_reply, (entries,), answers.3),
    ensures
        answers.0@ == JsonView::Object(
            map![
                "name"@ => text_or(name, nothing()),
                "secret_string"@ => text_or(text, JsonView::Null),
                "version_id"@ => text_or(version, nothing()),
            ],
        ),
        answers.1@ == JsonView::Object(
            map!["arn"@ => text_or(arn, nothing()), "name"@ => text_or(name, nothing())],
        ),
        answers.2@ == JsonView::Object(map!["version_id"@ => text_or(version, nothing())]),
        ({
            &&& answers.3@.items_field("secrets"@) matches Some(items)
            &&& answers.3@->Object_0.dom() == set!["secrets"@]
            &&& items.len() == entries@.len()
            &&& forall|i: int|
                0 <= i < items.len() ==> #[trigger] items[i] == JsonView::Object(
                    map![
                        "name"@ => text_or(entries@[i].name, nothing()),
                        "arn"@ => text_or(entries@[i].arn, nothing()),
                    ],
                )
        }),
{
    lemma_nothing();
    assert(answers.3@->Object_0.dom() =~= set!["secrets"@]);
}

/// A measurement is a number under a namespace and a name; anything but a number is refused. Metrics
/// are listed by what is given of the two.
pub proof fn law_metric_is_asked_for(opts: &Json, metric: Result<Metric, String>, filter: MetricFilter)
    requires
        call_ensures(op_cloudwatch_put_metric_request, (opts,), metric),
        call_ensures(op_cloudwatch_list_metrics_request, (opts,), filter),
    ensures
        match (given(opts@, "namespace"@), given(opts@, "metric_name"@)) {
            (None, _) => refused(metric, "missing namespace"@),
            (_, None) => refused(metric, "missing metric_name"@),
            (Some(namespace), Some(name)) => match opts@.at("value"@) {
                JsonView::Number(value) => {
                    &&& metric matches Ok(m)
                    &&& m.namespace@ == namespace && m.name@ == name
                    &&& number_text(m.value) == value
                    &&& same_text(m.unit, given(opts@, "unit"@))
                },
                _ => refused(metric, "missing value"@),
            },
        },
        same_text(filter.namespace, given(opts@, "namespace"@)),
        same_text(filter.name, given(opts@, "metric_name"@)),
{
}

/// What is answered of measurements and metrics, each with all its dimensions in their order.
pub proof fn law_metric_is_answered(
    metric: &Metric,
    metrics: &Vec<MetricEntry>,
    answer: Json,
    list: Json,
)
    requires
        call_ensures(op_cloudwatch_put_metric_reply, (metric,), answer),
        call_ensures(op_cloudwatch_list_metrics_reply, (metrics,), list),
    ensures
        answer@ == JsonView::Object(
            map![
                "namespace"@ => JsonView::Text(metric.namespace@),
                "metric_name"@ => JsonView::Text(metric.name@),
                "value"@ => match float_number(number_text(metric.value)) {
                    Some(Some(number)) => JsonView::Number(number),
                    _ => JsonView::Null,
                },
                "ok"@ => JsonView::Bool(true),
            ],
        ),
        list@->Object_0.dom() == set!["metrics"@],
        list@.items_field("metrics"@) is Some,
        list@.items_field("metrics"@).unwrap().len() == metrics@.len(),
        forall|i: int|
            0 <= i < metrics@.len() ==> {
                let said = #[trigger] list@.items_field("metrics"@).unwrap()[i];
                let whole = metrics@[i].dimensions@;
                &&& said.field("namespace"@) == Some(text_or(metrics@[i].namespace, JsonView::Null))
                &&& said.field("metric_name"@) == Some(text_or(metrics@[i].name, JsonView::Null))
                &&& said.items_field("dimensions"@) is Some
                &&& said.items_field("dimensions"@).unwrap().len() == whole.len()
                &&& forall|j: int|
                    0 <= j < whole.len() ==> #[trigger] said.items_field("dimensions"@).unwrap()[j]
                        == JsonView::Object(
                        map![
                            "name"@ => text_or(whole[j].name, JsonView::Null),
                            "value"@ => text_or(whole[j].value, JsonView::Null),
                        ],
                    )
            },
{
    reveal_strlit("namespace");
    reveal_strlit("metric_name");
    reveal_strlit("dimensions");
    assert("namespace"@.len() == 9 && "metric_name"@.len() == 11 && "dimensions"@.len() == 10);
    assert(list@->Object_0.dom() =~= set!["metrics"@]);
}

/// A role is assumed in the session that is named, or in `stryke-aws`; what is answered of it is null
/// where it is missing. A caller is told the three things that are known of it.
pub proof fn law_role_and_caller(
    opts: &Json,
    asked: Result<Role, String>,
    role: Option<String>,
    creds: Option<Credentials>,
    account: Option<String>,
    arn: Option<String>,
    user: Option<String>,
    answer: Json,
    caller: Json,
)
    requires
        call_ensures(op_sts_assume_role_request, (opts,), asked),
        call_ensures(op_sts_assume_role_reply, (role, creds), answer),
        call_ensures(op_sts_caller_identity_reply, (account, arn, user), caller),
    ensures
        match given(opts@, "role_arn"@) {
            None => refused(asked, "missing role_arn"@),
            Some(role_arn) => {
                &&& asked matches Ok(r)
                &&& r.role_arn@ == role_arn
                &&& r.session_name@ == match given(opts@, "session_name"@) {
                    Some(name) => name,
                    None => "stryke-aws"@,
                }
            },
        },
        answer@ == JsonView::Object(
            match creds {
                Some(c) => map![
                    "assumed_role"@ => text_or(role, JsonView::Null),
                    "access_key_id"@ => JsonView::Text(c.access_key_id@),
                    "secret_access_key"@ => JsonView::Text(c.secret_access_key@),
                    "session_token"@ => JsonView::Text(c.session_token@),
                    "expiration"@ => JsonView::Text(c.expiration@),
                ],
                None => map![
                    "assumed_role"@ => text_or(role, JsonView::Null),
                    "access_key_id"@ => JsonView::Null,
                    "secret_access_key"@ => JsonView::Null,
                    "session_token"@ => JsonView::Null,
                    "expiration"@ => JsonView::Null,
                ],
            },
        ),
        caller@ == JsonView::Object(
            map![
                "account"@ => text_or(account, nothing()),
                "arn"@ => text_or(arn, nothing()),
                "user_id"@ => text_or(user, nothing()),
            ],
        ),
{
    lemma_nothing();
}

}
