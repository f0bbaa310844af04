//! The boundary of the library: JSON text in, JSON text out.
use vstd::prelude::*;
use vstd::string::*;

use crate::json::put;
use crate::json::Json;
use crate::json::JsonView;
use crate::options::opt_view;
use crate::options::owned;
use crate::wire::json_text;
use crate::wire::parse_json_bytes;
use crate::wire::parsed_json_bytes;
use crate::wire::write_json;

verus! {

/// What came of an operation.
#[derive(Debug)]
pub enum Outcome {
    /// It answered.
    Answered(Json),
    /// It failed with this message.
    Failed(String),
    /// It did not come to an end.
    Panicked,
}

/// The options that were handed over; without any, or where they are no JSON, null.
pub open spec fn options_in(args: Option<Seq<u8>>) -> JsonView {
    match args {
        Some(bytes) => parsed_json_bytes(bytes).unwrap_or(JsonView::Null),
        None => JsonView::Null,
    }
}

/// Reads the options that were handed over.
pub fn read_options(args: Option<&[u8]>) -> (opts: Json)
    ensures
        opts@ == options_in(
            match args {
                Some(bytes) => Some(bytes@),
                None => None,
            },
        ),
{
    match args {
        Some(bytes) => options_or_null(parse_json_bytes(bytes)),
        None => Json::Null,
    }
}

/// The options that were read, or null where there are none.
pub fn options_or_null(read: Option<Json>) -> (opts: Json)
    ensures
        opts@ == match read {
            Some(json) => json@,
            None => JsonView::Null,
        },
{
    match read {
        Some(json) => json,
        None => Json::Null,
    }
}

/// An error as it is handed back: its message under `error`, and nothing else.
pub open spec fn error_json(message: Seq<char>) -> JsonView {
    JsonView::Object(map!["error"@ => JsonView::Text(message)])
}

/// What is handed back of an operation.
pub open spec fn reply_json(outcome: Outcome) -> JsonView {
    match outcome {
        Outcome::Answered(json) => json@,
        Outcome::Failed(message) => error_json(message@),
        Outcome::Panicked => error_json("stryke-aws handler panicked"@),
    }
}

/// What is handed back of an operation.
pub fn reply(outcome: Outcome) -> (json: Json)
    ensures
        json@ == reply_json(outcome),
{
    let message = match outcome {
        Outcome::Answered(json) => return json,
        Outcome::Failed(message) => message,
        Outcome::Panicked => "stryke-aws handler panicked".to_owned(),
    };
    let mut out: Vec<(String, Json)> = Vec::new();
    put(&mut out, "error", Json::Text(message));
    Json::Object(out)
}

/// What is handed back of an operation, as text.
pub fn reply_text(outcome: Outcome) -> (text: String)
    ensures
        text@ == json_text(reply_json(outcome)),
{
    write_json(&reply(outcome))
}

/// A failure is told from an answer by the name `error`: its message is there as it is, and comes
/// with nothing else.
pub proof fn law_failures_are_told(message: String)
    ensures
        reply_json(Outcome::Failed(message)).text_field("error"@) == Some(message@),
        reply_json(Outcome::Failed(message))->Object_0.dom() == set!["error"@],
{
    assert(reply_json(Outcome::Failed(message))->Object_0.dom() =~= set!["error"@]);
}

/// Answers with the version of the package.
pub fn pkg_version(version: &str) -> (json: Json)
    ensures
        json@ == JsonView::Object(map!["version"@ => JsonView::Text(version@)]),
{
    let mut out: Vec<(String, Json)> = Vec::new();
    put(&mut out, "version", Json::text(version));
    Json::Object(out)
}

/// The region to work in: the one in the options, else the first of the two that the environment
/// names, else `us-east-1`.
pub open spec fn region_in(
    opts: JsonView,
    aws_region: Option<Seq<char>>,
    aws_default_region: Option<Seq<char>>,
) -> Seq<char> {
    match (opts.text_field("region"@), aws_region, aws_default_region) {
        (Some(given), _, _) => given,
        (None, Some(first), _) => first,
        (None, None, Some(second)) => second,
        (None, None, None) => "us-east-1"@,
    }
}

/// The region to work in.
pub fn region_for(opts: &Json, aws_region: Option<String>, aws_default_region: Option<String>) -> (
    region: String)
    ensures
        region@ == region_in(opts@, opt_view(aws_region), opt_view(aws_default_region)),
{
    if let Some(given) = opts.text_at("region") {
        return given.to_owned();
    }
    match aws_region {
        Some(first) => first,
        None => match aws_default_region {
            Some(second) => second,
            None => "us-east-1".to_owned(),
        },
    }
}

/// How to reach the services: in which region, with which profile and at which endpoint, where they
/// are not the usual ones.
#[derive(Debug)]
pub struct Connection {
    pub region: String,
    pub profile: Option<String>,
    pub endpoint: Option<String>,
}

/// How to reach the services. The options come first; the environment names a region and an
/// endpoint in their place.
pub fn connection_for(
    opts: &Json,
    aws_region: Option<String>,
    aws_default_region: Option<String>,
    aws_endpoint_url: Option<String>,
) -> (connection: Connection)
    ensures
        connection.region@ == region_in(
            opts@,
            opt_view(aws_region),
            opt_view(aws_default_region),
        ),
        opt_view(connection.profile) == opts@.text_field("profile"@),
        opt_view(connection.endpoint) == match opts@.text_field("endpoint"@) {
            Some(given) => Some(given),
            None => opt_view(aws_endpoint_url),
        },
{
    let endpoint = match opts.text_at("endpoint") {
        Some(given) => Some(given.to_owned()),
        None => aws_endpoint_url,
    };
    subscribe_connection_for(opts, aws_region, aws_default_region, endpoint)
}

/// How to reach the service for `sns_subscribe`, whose option `endpoint` is that of the subscription:
/// only the environment names another endpoint of the service.
pub fn subscribe_connection_for(
    opts: &Json,
    aws_region: Option<String>,
    aws_default_region: Option<String>,
    aws_endpoint_url: Option<String>,
) -> (connection: Connection)
    ensures
        connection.region@ == region_in(
            opts@,
            opt_view(aws_region),
            opt_view(aws_default_region),
        ),
        opt_view(connection.profile) == opts@.text_field("profile"@),
        connection.endpoint == aws_endpoint_url,
{
    let region = region_for(opts, aws_region, aws_default_region);
    let profile = owned(opts.text_at("profile"));
    Connection { region, profile, endpoint: aws_endpoint_url }
}

}
