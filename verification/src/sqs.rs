//! The SQS commands: what each asks of the service, and what it shows of the answer.
use vstd::prelude::*;
use vstd::string::*;

use crate::json::fields_view;
use crate::json::items_view;
use crate::json::lemma_items_push;
use crate::json::put;
use crate::json::text_or_null;
use crate::json::Json;
use crate::json::JsonView;
use crate::options::borrowed;
use crate::options::opt_view;
use crate::options::strings_view;

verus! {

/// An SQS command.
#[derive(Debug)]
pub enum SqsCmd {
    /// Send a message.
    Send {
        queue_url: String,
        body: String,
        delay_seconds: Option<i32>,
        dedup_id: Option<String>,
        group_id: Option<String>,
    },
    /// Receive messages, waiting for them if need be.
    Receive { queue_url: String, max: i32, wait: i32, visibility: Option<i32> },
    /// Delete a message by its receipt handle.
    Delete { queue_url: String, receipt: String },
    /// Delete all messages.
    Purge { queue_url: String },
    /// Show the attributes of a queue.
    Attrs { queue_url: String },
    /// List the queues, those that begin with a prefix where one is given.
    List { prefix: Option<String> },
}

/// What a command asks for.
#[derive(Debug)]
pub enum SqsRequest {
    Send {
        queue_url: String,
        body: String,
        delay_seconds: Option<i32>,
        dedup_id: Option<String>,
        group_id: Option<String>,
    },
    Receive { queue_url: String, max: i32, wait: i32, visibility: Option<i32> },
    Delete { queue_url: String, receipt: String },
    Purge { queue_url: String },
    Attrs { queue_url: String },
    List { prefix: Option<String> },
}

/// How many messages may be received at once.
pub const MOST_MESSAGES: i32 = 10;

/// How long a receiver may wait, in seconds.
pub const LONGEST_WAIT: i32 = 20;

/// `value`, or the bound that it lies beyond.
pub open spec fn clamped(value: i32, low: i32, high: i32) -> i32 {
    if value < low {
        low
    } else if value > high {
        high
    } else {
        value
    }
}

/// What a command asks for: what it says, but no more messages and no longer a wait than the
/// service grants.
pub open spec fn planned(cmd: SqsCmd) -> SqsRequest {
    match cmd {
        SqsCmd::Send { queue_url, body, delay_seconds, dedup_id, group_id } => SqsRequest::Send {
            queue_url,
            body,
            delay_seconds,
            dedup_id,
            group_id,
        },
        SqsCmd::Receive { queue_url, max, wait, visibility } => SqsRequest::Receive {
            queue_url,
            max: clamped(max, i32::MIN, MOST_MESSAGES),
            wait: clamped(wait, 0, LONGEST_WAIT),
            visibility,
        },
        SqsCmd::Delete { queue_url, receipt } => SqsRequest::Delete { queue_url, receipt },
        SqsCmd::Purge { queue_url } => SqsRequest::Purge { queue_url },
        SqsCmd::Attrs { queue_url } => SqsRequest::Attrs { queue_url },
        SqsCmd::List { prefix } => SqsRequest::List { prefix },
    }
}

/// What a command asks for.
pub fn dispatch(cmd: SqsCmd) -> (plan: SqsRequest)
    ensures
        plan == planned(cmd),
        plan matches SqsRequest::Receive { max, wait, .. } ==> max <= MOST_MESSAGES && 0 <= wait
            <= LONGEST_WAIT,
{
    match cmd {
        SqsCmd::Send { queue_url, body, delay_seconds, dedup_id, group_id } => SqsRequest::Send {
            queue_url,
            body,
            delay_seconds,
            dedup_id,
            group_id,
        },
        SqsCmd::Receive { queue_url, max, wait, visibility } => {
            let max = if max > MOST_MESSAGES {
                MOST_MESSAGES
            } else {
                max
            };
            let wait = if wait < 0 {
                0
            } else if wait > LONGEST_WAIT {
                LONGEST_WAIT
            } else {
                wait
            };
            SqsRequest::Receive { queue_url, max, wait, visibility }
        },
        SqsCmd::Delete { queue_url, receipt } => SqsRequest::Delete { queue_url, receipt },
        SqsCmd::Purge { queue_url } => SqsRequest::Purge { queue_url },
        SqsCmd::Attrs { queue_url } => SqsRequest::Attrs { queue_url },
        SqsCmd::List { prefix } => SqsRequest::List { prefix },
    }
}

/// Shows a message that was sent.
pub fn send(message_id: Option<String>, md5: Option<String>, sequence: Option<String>) -> (json:
    Json)
    ensures
        json@ == JsonView::Object(
            map![
                "message_id"@ => text_or_null(opt_view(message_id)),
                "md5_of_body"@ => text_or_null(opt_view(md5)),
                "sequence_number"@ => text_or_null(opt_view(sequence)),
            ],
        ),
{
    let mut out: Vec<(String, Json)> = Vec::new();
    put(&mut out, "message_id", Json::text_or_null(borrowed(&message_id)));
    put(&mut out, "md5_of_body", Json::text_or_null(borrowed(&md5)));
    put(&mut out, "sequence_number", Json::text_or_null(borrowed(&sequence)));
    Json::Object(out)
}

/// A message.
#[derive(Debug)]
pub struct Message {
    pub message_id: Option<String>,
    pub receipt_handle: Option<String>,
    pub md5: Option<String>,
    pub body: Option<String>,
}

/// What is shown of a message.
pub open spec fn message_json(message: Message) -> JsonView {
    JsonView::Object(
        map![
            "message_id"@ => text_or_null(opt_view(message.message_id)),
            "receipt_handle"@ => text_or_null(opt_view(message.receipt_handle)),
            "md5"@ => text_or_null(opt_view(message.md5)),
            "body"@ => text_or_null(opt_view(message.body)),
        ],
    )
}

/// Shows the messages that were received.
pub fn receive(messages: &Vec<Message>) -> (lines: Vec<Json>)
    ensures
        items_view(lines@) == messages@.map_values(|m: Message| message_json(m)),
{
    let mut lines: Vec<Json> = Vec::new();
    let ghost whole = messages@.map_values(|m: Message| message_json(m));
    let mut i: usize = 0;
    while i < messages.len()
        invariant
            i <= messages@.len(),
            whole == messages@.map_values(|m: Message| message_json(m)),
            items_view(lines@) == whole.take(i as int),
        decreases messages@.len() - i,
    {
        let message = &messages[i];
        let mut out: Vec<(String, Json)> = Vec::new();
        put(&mut out, "message_id", Json::text_or_null(borrowed(&message.message_id)));
        put(&mut out, "receipt_handle", Json::text_or_null(borrowed(&message.receipt_handle)));
        put(&mut out, "md5", Json::text_or_null(borrowed(&message.md5)));
        put(&mut out, "body", Json::text_or_null(borrowed(&message.body)));
        let line = Json::Object(out);
        proof {
            lemma_items_push(lines@, line);
            assert(whole.take(i + 1) =~= whole.take(i as int).push(whole[i as int]));
        }
        lines.push(line);
        i = i + 1;
    }
    assert(whole.take(i as int) =~= whole);
    lines
}

/// Named texts as the fields of an object; where a name is listed twice, the later one counts.
pub open spec fn texts_by_name(pairs: Seq<(String, String)>) -> Map<Seq<char>, JsonView>
    decreases pairs.len(),
{
    if pairs.len() == 0 {
        Map::empty()
    } else {
        texts_by_name(pairs.drop_last()).insert(
            pairs.last().0@,
            JsonView::Text(pairs.last().1@),
        )
    }
}

/// Shows the attributes of a queue, all of which are texts.
pub fn attrs(attributes: &Vec<(String, String)>) -> (json: Json)
    ensures
        json@ == JsonView::Object(texts_by_name(attributes@)),
{
    let mut out: Vec<(String, Json)> = Vec::new();
    let mut i: usize = 0;
    assert(attributes@.take(0) =~= Seq::<(String, String)>::empty());
    while i < attributes.len()
        invariant
            i <= attributes@.len(),
            fields_view(out@) == texts_by_name(attributes@.take(i as int)),
        decreases attributes@.len() - i,
    {
        assert(attributes@.take(i + 1).drop_last() =~= attributes@.take(i as int));
        put(&mut out, attributes[i].0.as_str(), Json::text(attributes[i].1.as_str()));
        i = i + 1;
    }
    assert(attributes@.take(i as int) =~= attributes@);
    Json::Object(out)
}

/// What is shown of queues.
pub open spec fn located(urls: Seq<Seq<char>>) -> Seq<JsonView> {
    urls.map_values(|u: Seq<char>| JsonView::Object(map!["url"@ => JsonView::Text(u)]))
}

/// Shows the queues on a page.
pub fn list(urls: &Vec<String>) -> (lines: Vec<Json>)
    ensures
        items_view(lines@) == located(strings_view(urls@)),
{
    let mut lines: Vec<Json> = Vec::new();
    let ghost whole = located(strings_view(urls@));
    let mut i: usize = 0;
    while i < urls.len()
        invariant
            i <= urls@.len(),
            whole == located(strings_view(urls@)),
            items_view(lines@) == whole.take(i as int),
        decreases urls@.len() - i,
    {
        let mut out: Vec<(String, Json)> = Vec::new();
        put(&mut out, "url", Json::text(urls[i].as_str()));
        let line = Json::Object(out);
        proof {
            lemma_items_push(lines@, line);
            assert(whole.take(i + 1) =~= whole.take(i as int).push(whole[i as int]));
        }
        lines.push(line);
        i = i + 1;
    }
    assert(whole.take(i as int) =~= whole);
    lines
}

}
