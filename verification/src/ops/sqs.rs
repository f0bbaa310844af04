//! Operations on SQS.
use vstd::prelude::*;
use vstd::string::*;

use crate::json::items_view;
use crate::json::lemma_items_push;
use crate::json::put;
use crate::json::text_or_empty;
use crate::json::Json;
use crate::json::JsonView;
use crate::options::borrowed;
use crate::options::narrow_at;
use crate::options::narrow_field;
use crate::options::needed;
use crate::options::opt_view;
use crate::options::owned;
use crate::options::require;
use crate::options::seen;
use crate::options::strings_view;
use crate::options::text_array;
use crate::options::texts_json;
use crate::sqs::attrs;
use crate::sqs::texts_by_name;

verus! {

/// The queue that the options name: what `sqs_purge_queue` and `sqs_get_queue_attributes` ask for.
pub fn op_sqs_queue_request(opts: &Json) -> (queue_url: Result<String, String>)
    ensures
        seen(queue_url) == needed(opts@, "queue_url"@, "missing queue_url"@),
{
    match require(opts, "queue_url", "missing queue_url") {
        Ok(url) => Ok(url.to_owned()),
        Err(message) => Err(message),
    }
}

/// Answers that a queue was purged.
pub fn op_sqs_purge_queue_reply(queue_url: &str) -> (json: Json)
    ensures
        json@ == JsonView::Object(
            map!["queue_url"@ => JsonView::Text(queue_url@), "purged"@ => JsonView::Bool(true)],
        ),
{
    let mut out: Vec<(String, Json)> = Vec::new();
    put(&mut out, "queue_url", Json::text(queue_url));
    put(&mut out, "purged", Json::Bool(true));
    Json::Object(out)
}

/// Answers with the attributes of a queue.
pub fn op_sqs_get_queue_attributes_reply(
    queue_url: &str,
    attributes: &Vec<(String, String)>,
) -> (json: Json)
    ensures
        json@ == JsonView::Object(
            map![
                "queue_url"@ => JsonView::Text(queue_url@),
                "attributes"@ => JsonView::Object(texts_by_name(attributes@)),
            ],
        ),
{
    let mut out: Vec<(String, Json)> = Vec::new();
    put(&mut out, "queue_url", Json::text(queue_url));
    put(&mut out, "attributes", attrs(attributes));
    Json::Object(out)
}

/// Answers with the queues.
pub fn op_sqs_list_queues_reply(urls: &Vec<String>) -> (json: Json)
    ensures
        json@ == JsonView::Object(map!["queues"@ => texts_json(strings_view(urls@))]),
{
    let mut out: Vec<(String, Json)> = Vec::new();
    put(&mut out, "queues", text_array(urls));
    Json::Object(out)
}

/// A message to send, as contracts speak of it.
pub ghost struct OutgoingView {
    pub queue_url: Seq<char>,
    pub body: Seq<char>,
    pub delay_seconds: Option<i32>,
    pub dedup_id: Option<Seq<char>>,
    pub group_id: Option<Seq<char>>,
}

/// A message to send. The last two are for queues that keep the order of messages.
#[derive(Debug)]
pub struct Outgoing {
    pub queue_url: String,
    pub body: String,
    pub delay_seconds: Option<i32>,
    pub dedup_id: Option<String>,
    pub group_id: Option<String>,
}

impl View for Outgoing {
    type V = OutgoingView;

    open spec fn view(&self) -> OutgoingView {
        OutgoingView {
            queue_url: self.queue_url@,
            body: self.body@,
            delay_seconds: self.delay_seconds,
            dedup_id: opt_view(self.dedup_id),
            group_id: opt_view(self.group_id),
        }
    }
}

/// What `sqs_send_message` asks for: that `body` be sent, where given after `delay_seconds`, under
/// `dedup_id` and in the group `group_id`.
pub open spec fn send_request(opts: JsonView) -> Result<OutgoingView, Seq<char>> {
    match needed(opts, "queue_url"@, "missing queue_url"@) {
        Err(why) => Err(why),
        Ok(queue_url) => match needed(opts, "body"@, "missing body"@) {
            Err(why) => Err(why),
            Ok(body) => Ok(
                OutgoingView {
                    queue_url,
                    body,
                    delay_seconds: narrow_field(opts, "delay_seconds"@),
                    dedup_id: opts.text_field("dedup_id"@),
                    group_id: opts.text_field("group_id"@),
                },
            ),
        },
    }
}

/// What `sqs_send_message` asks for.
pub fn op_sqs_send_message_request(opts: &Json) -> (message: Result<Outgoing, String>)
    ensures
        seen(message) == send_request(opts@),
{
    let queue_url = match op_sqs_queue_request(opts) {
        Ok(url) => url,
        Err(why) => return Err(why),
    };
    let body = match require(opts, "body", "missing body") {
        Ok(body) => body.to_owned(),
        Err(why) => return Err(why),
    };
    let delay_seconds = narrow_at(opts, "delay_seconds");
    let dedup_id = owned(opts.text_at("dedup_id"));
    let group_id = owned(opts.text_at("group_id"));
    Ok(Outgoing { queue_url, body, delay_seconds, dedup_id, group_id })
}

/// Answers that a message was sent.
pub fn op_sqs_send_message_reply(queue_url: &str, message_id: Option<String>) -> (json: Json)
    ensures
        json@ == JsonView::Object(
            map![
                "queue_url"@ => JsonView::Text(queue_url@),
                "message_id"@ => text_or_empty(opt_view(message_id)),
            ],
        ),
{
    let mut out: Vec<(String, Json)> = Vec::new();
    put(&mut out, "queue_url", Json::text(queue_url));
    put(&mut out, "message_id", Json::text_or_empty(borrowed(&message_id)));
    Json::Object(out)
}

/// How many messages to receive, and where from, as contracts speak of it.
pub ghost struct IncomingView {
    pub queue_url: Seq<char>,
    pub max: i32,
    pub wait: Option<i32>,
    pub visibility: Option<i32>,
}

/// How many messages to receive, and where from; how many seconds to wait for them, and for how
/// many to hide them from others.
#[derive(Debug)]
pub struct Incoming {
    pub queue_url: String,
    pub max: i32,
    pub wait: Option<i32>,
    pub visibility: Option<i32>,
}

impl View for Incoming {
    type V = IncomingView;

    open spec fn view(&self) -> IncomingView {
        IncomingView {
            queue_url: self.queue_url@,
            max: self.max,
            wait: self.wait,
            visibility: self.visibility,
        }
    }
}

/// What `sqs_receive_message` asks for: `max` messages, or one; `wait` and `visibility` where given.
pub open spec fn receive_request(opts: JsonView) -> Result<IncomingView, Seq<char>> {
    match needed(opts, "queue_url"@, "missing queue_url"@) {
        Err(why) => Err(why),
        Ok(queue_url) => Ok(
            IncomingView {
                queue_url,
                max: narrow_field(opts, "max"@).unwrap_or(1),
                wait: narrow_field(opts, "wait"@),
                visibility: narrow_field(opts, "visibility"@),
            },
        ),
    }
}

/// What `sqs_receive_message` asks for.
pub fn op_sqs_receive_message_request(opts: &Json) -> (what: Result<Incoming, String>)
    ensures
        seen(what) == receive_request(opts@),
{
    let queue_url = match op_sqs_queue_request(opts) {
        Ok(url) => url,
        Err(why) => return Err(why),
    };
    let max: i32 = narrow_at(opts, "max").unwrap_or(1);
    let wait = narrow_at(opts, "wait");
    let visibility = narrow_at(opts, "visibility");
    Ok(Incoming { queue_url, max, wait, visibility })
}

/// A message that was received.
#[derive(Debug)]
pub struct Received {
    pub message_id: Option<String>,
    pub receipt_handle: Option<String>,
    pub body: Option<String>,
}

/// What is answered of a message.
pub open spec fn received_json(message: Received) -> JsonView {
    JsonView::Object(
        map![
            "message_id"@ => text_or_empty(opt_view(message.message_id)),
            "receipt_handle"@ => text_or_empty(opt_view(message.receipt_handle)),
            "body"@ => text_or_empty(opt_view(message.body)),
        ],
    )
}

/// Answers with the messages that were received.
pub fn op_sqs_receive_message_reply(queue_url: &str, messages: &Vec<Received>) -> (json: Json)
    ensures
        json@ == JsonView::Object(
            map![
                "queue_url"@ => JsonView::Text(queue_url@),
                "messages"@ => JsonView::Array(
                    messages@.map_values(|m: Received| received_json(m)),
                ),
            ],
        ),
{
    let mut items: Vec<Json> = Vec::new();
    let ghost whole = messages@.map_values(|m: Received| received_json(m));
    let mut i: usize = 0;
    while i < messages.len()
        invariant
            i <= messages@.len(),
            whole == messages@.map_values(|m: Received| received_json(m)),
            items_view(items@) == whole.take(i as int),
        decreases messages@.len() - i,
    {
        let message = &messages[i];
        let mut entry: Vec<(String, Json)> = Vec::new();
        put(&mut entry, "message_id", Json::text_or_empty(borrowed(&message.message_id)));
        put(&mut entry, "receipt_handle", Json::text_or_empty(borrowed(&message.receipt_handle)));
        put(&mut entry, "body", Json::text_or_empty(borrowed(&message.body)));
        let item = Json::Object(entry);
        proof {
            lemma_items_push(items@, item);
            assert(whole.take(i + 1) =~= whole.take(i as int).push(whole[i as int]));
        }
        items.push(item);
        i = i + 1;
    }
    assert(whole.take(i as int) =~= whole);
    let mut out: Vec<(String, Json)> = Vec::new();
    put(&mut out, "queue_url", Json::text(queue_url));
    put(&mut out, "messages", Json::Array(items));
    Json::Object(out)
}

/// Which message to delete.
#[derive(Debug)]
pub struct Receipt {
    pub queue_url: String,
    pub receipt_handle: String,
}

impl View for Receipt {
    type V = (Seq<char>, Seq<char>);

    open spec fn view(&self) -> (Seq<char>, Seq<char>) {
        (self.queue_url@, self.receipt_handle@)
    }
}

/// What `sqs_delete_message` asks for.
pub fn op_sqs_delete_message_request(opts: &Json) -> (receipt: Result<Receipt, String>)
    ensures
        seen(receipt) == match needed(opts@, "queue_url"@, "missing queue_url"@) {
            Err(why) => Err(why),
            Ok(url) => match needed(opts@, "receipt_handle"@, "missing receipt_handle"@) {
                Err(why) => Err(why),
                Ok(handle) => Ok((url, handle)),
            },
        },
{
    let queue_url = match op_sqs_queue_request(opts) {
        Ok(url) => url,
        Err(why) => return Err(why),
    };
    match require(opts, "receipt_handle", "missing receipt_handle") {
        Ok(handle) => Ok(Receipt { queue_url, receipt_handle: handle.to_owned() }),
        Err(why) => Err(why),
    }
}

/// Answers that a message was deleted.
pub fn op_sqs_delete_message_reply() -> (json: Json)
    ensures
        json@ == JsonView::Object(map!["deleted"@ => JsonView::Bool(true)]),
{
    let mut out: Vec<(String, Json)> = Vec::new();
    put(&mut out, "deleted", Json::Bool(true));
    Json::Object(out)
}

}
