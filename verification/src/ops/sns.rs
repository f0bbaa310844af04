//! Operations on SNS.
use vstd::prelude::*;
use vstd::string::*;

use crate::json::put;
use crate::json::text_or_empty;
use crate::json::Json;
use crate::json::JsonView;
use crate::options::borrowed;
use crate::options::keep_present;
use crate::options::needed;
use crate::options::opt_view;
use crate::options::owned;
use crate::options::present;
use crate::options::require;
use crate::options::seen;
use crate::options::text_array;
use crate::options::texts_json;

verus! {

/// Answers with the topics that have an ARN.
pub fn op_sns_list_topics_reply(arns: Vec<Option<String>>) -> (json: Json)
    ensures
        json@ == JsonView::Object(map!["topics"@ => texts_json(present(arns@))]),
{
    let mut out: Vec<(String, Json)> = Vec::new();
    put(&mut out, "topics", text_array(&keep_present(arns)));
    Json::Object(out)
}

/// Where a message goes, as contracts speak of it.
pub ghost enum TargetView {
    Topic(Seq<char>),
    Phone(Seq<char>),
    Target(Seq<char>),
}

/// Where a message goes.
#[derive(Debug)]
pub enum Target {
    Topic(String),
    Phone(String),
    Target(String),
}

impl View for Target {
    type V = TargetView;

    open spec fn view(&self) -> TargetView {
        match self {
            Target::Topic(arn) => TargetView::Topic(arn@),
            Target::Phone(number) => TargetView::Phone(number@),
            Target::Target(arn) => TargetView::Target(arn@),
        }
    }
}

/// A message to publish.
#[derive(Debug)]
pub struct Publication {
    pub message: String,
    pub target: Target,
    pub subject: Option<String>,
}

impl View for Publication {
    type V = (Seq<char>, TargetView, Option<Seq<char>>);

    open spec fn view(&self) -> (Seq<char>, TargetView, Option<Seq<char>>) {
        (self.message@, self.target@, opt_view(self.subject))
    }
}

/// Where the options say that a message goes: to a topic before a phone, and to that before any
/// other target.
pub open spec fn target_of(opts: JsonView) -> Option<TargetView> {
    match (
        opts.text_field("topic_arn"@),
        opts.text_field("phone_number"@),
        opts.text_field("target_arn"@),
    ) {
        (Some(arn), _, _) => Some(TargetView::Topic(arn)),
        (None, Some(number), _) => Some(TargetView::Phone(number)),
        (None, None, Some(arn)) => Some(TargetView::Target(arn)),
        (None, None, None) => None,
    }
}

/// What `sns_publish` asks for.
pub fn op_sns_publish_request(opts: &Json) -> (what: Result<Publication, String>)
    ensures
        seen(what) == match needed(opts@, "message"@, "missing message"@) {
            Err(why) => Err(why),
            Ok(message) => match target_of(opts@) {
                None => Err("need topic_arn, target_arn, or phone_number"@),
                Some(target) => Ok((message, target, opts@.text_field("subject"@))),
            },
        },
{
    let message = match require(opts, "message", "missing message") {
        Ok(message) => message.to_owned(),
        Err(why) => return Err(why),
    };
    let target = if let Some(arn) = opts.text_at("topic_arn") {
        Target::Topic(arn.to_owned())
    } else if let Some(number) = opts.text_at("phone_number") {
        Target::Phone(number.to_owned())
    } else if let Some(arn) = opts.text_at("target_arn") {
        Target::Target(arn.to_owned())
    } else {
        return Err("need topic_arn, target_arn, or phone_number".to_owned());
    };
    Ok(Publication { message, target, subject: owned(opts.text_at("subject")) })
}

/// Answers that a message was published.
pub fn op_sns_publish_reply(message_id: Option<String>) -> (json: Json)
    ensures
        json@ == JsonView::Object(map!["message_id"@ => text_or_empty(opt_view(message_id))]),
{
    let mut out: Vec<(String, Json)> = Vec::new();
    put(&mut out, "message_id", Json::text_or_empty(borrowed(&message_id)));
    Json::Object(out)
}

/// What `sns_create_topic` asks for: a topic called `name`.
pub fn op_sns_create_topic_request(opts: &Json) -> (name: Result<String, String>)
    ensures
        seen(name) == needed(opts@, "name"@, "missing name"@),
{
    match require(opts, "name", "missing name") {
        Ok(name) => Ok(name.to_owned()),
        Err(why) => Err(why),
    }
}

/// Answers that a topic was made.
pub fn op_sns_create_topic_reply(topic_arn: Option<String>) -> (json: Json)
    ensures
        json@ == JsonView::Object(map!["topic_arn"@ => text_or_empty(opt_view(topic_arn))]),
{
    let mut out: Vec<(String, Json)> = Vec::new();
    put(&mut out, "topic_arn", Json::text_or_empty(borrowed(&topic_arn)));
    Json::Object(out)
}

/// A subscription to make.
#[derive(Debug)]
pub struct Subscription {
    pub topic_arn: String,
    pub protocol: String,
    pub endpoint: String,
}

impl View for Subscription {
    type V = (Seq<char>, Seq<char>, Seq<char>);

    open spec fn view(&self) -> (Seq<char>, Seq<char>, Seq<char>) {
        (self.topic_arn@, self.protocol@, self.endpoint@)
    }
}

/// What `sns_subscribe` asks for.
pub fn op_sns_subscribe_request(opts: &Json) -> (what: Result<Subscription, String>)
    ensures
        seen(what) == match needed(opts@, "topic_arn"@, "missing topic_arn"@) {
            Err(why) => Err(why),
            Ok(arn) => match needed(opts@, "protocol"@, "missing protocol"@) {
                Err(why) => Err(why),
                Ok(protocol) => match needed(opts@, "endpoint"@, "missing endpoint"@) {
                    Err(why) => Err(why),
                    Ok(endpoint) => Ok((arn, protocol, endpoint)),
                },
            },
        },
{
    let topic_arn = match require(opts, "topic_arn", "missing topic_arn") {
        Ok(arn) => arn.to_owned(),
        Err(why) => return Err(why),
    };
    let protocol = match require(opts, "protocol", "missing protocol") {
        Ok(protocol) => protocol.to_owned(),
        Err(why) => return Err(why),
    };
    match require(opts, "endpoint", "missing endpoint") {
        Ok(endpoint) => Ok(Subscription { topic_arn, protocol, endpoint: endpoint.to_owned() }),
        Err(why) => Err(why),
    }
}

/// Answers that a subscription was made.
pub fn op_sns_subscribe_reply(subscription_arn: Option<String>) -> (json: Json)
    ensures
        json@ == JsonView::Object(
            map!["subscription_arn"@ => text_or_empty(opt_view(subscription_arn))],
        ),
{
    let mut out: Vec<(String, Json)> = Vec::new();
    put(&mut out, "subscription_arn", Json::text_or_empty(borrowed(&subscription_arn)));
    Json::Object(out)
}

}
