//! The Lambda commands: what each asks of the service, and what it shows of the answer.
use vstd::prelude::*;
use vstd::string::*;

use crate::bytes::base64_bytes;
use crate::bytes::decode_base64;
use crate::bytes::lossy;
use crate::bytes::lossy_string;
use crate::bytes::utf8_str;
use crate::bytes::utf8_text;
use crate::json::int_json;
use crate::json::int_or_null;
use crate::json::items_view;
use crate::json::lemma_items_push;
use crate::json::put;
use crate::json::text_or_null;
use crate::json::Json;
use crate::json::JsonView;
use crate::options::borrowed;
use crate::options::opt_view;
use crate::text::lower;
use crate::text::same;
use crate::text::to_lower;
use crate::wire::parse_json;
use crate::wire::parse_json_bytes;
use crate::wire::parsed_json;
use crate::wire::parsed_json_bytes;

verus! {

/// A Lambda command.
#[derive(Debug)]
pub enum LambdaCmd {
    /// Invoke a function with a JSON payload; `-` stands for the standard input.
    Invoke {
        name: String,
        payload: String,
        invocation_type: String,
        qualifier: Option<String>,
        log_tail: bool,
    },
    /// List the functions.
    List,
}

/// How a function is invoked.
#[derive(Debug, PartialEq, Eq, Clone, Copy)]
pub enum Invocation {
    /// Wait for the answer.
    RequestResponse,
    /// Do not wait.
    Event,
    /// Only see whether it could be done.
    DryRun,
}

/// What a command asks for. Without a payload, it is read from the standard input.
#[derive(Debug)]
pub enum LambdaRequest {
    Invoke {
        name: String,
        payload: Option<String>,
        invocation_type: String,
        qualifier: Option<String>,
        log_tail: bool,
    },
    List,
}

/// What a command asks for.
pub fn dispatch(cmd: LambdaCmd) -> (plan: LambdaRequest)
    ensures
        plan == match cmd {
            LambdaCmd::Invoke {
                name,
                payload,
                invocation_type,
                qualifier,
                log_tail,
            } => LambdaRequest::Invoke {
                name,
                payload: if payload@ == "-"@ {
                    None
                } else {
                    Some(payload)
                },
                invocation_type,
                qualifier,
                log_tail,
            },
            LambdaCmd::List => LambdaRequest::List,
        },
{
    match cmd {
        LambdaCmd::Invoke { name, payload, invocation_type, qualifier, log_tail } => {
            let payload = if same(payload.as_str(), "-") {
                None
            } else {
                Some(payload)
            };
            LambdaRequest::Invoke { name, payload, invocation_type, qualifier, log_tail }
        },
        LambdaCmd::List => LambdaRequest::List,
    }
}

/// `text` in lower case.
pub open spec fn lower_case(text: Seq<char>) -> Seq<char> {
    text.map_values(|c: char| lower(c))
}

/// How a function is invoked, by name and in either case.
pub open spec fn invocation_of(name: Seq<char>) -> Result<Invocation, Seq<char>> {
    let low = lower_case(name);
    if low == "request-response"@ || low == "sync"@ {
        Ok(Invocation::RequestResponse)
    } else if low == "event"@ || low == "async"@ {
        Ok(Invocation::Event)
    } else if low == "dry-run"@ || low == "dryrun"@ {
        Ok(Invocation::DryRun)
    } else {
        Err("invocation_type: "@ + low + " (expected request-response|event|dry-run)"@)
    }
}

/// An invocation, or the message of an error.
pub open spec fn invocation_seen(kind: Result<Invocation, String>) -> Result<
    Invocation,
    Seq<char>,
> {
    match kind {
        Ok(k) => Ok(k),
        Err(message) => Err(message@),
    }
}

/// How a function is invoked.
pub fn invocation_kind(name: &str) -> (kind: Result<Invocation, String>)
    ensures
        invocation_seen(kind) == invocation_of(name@),
{
    let lowered = to_lower(name);
    let low = lowered.as_str();
    if same(low, "request-response") || same(low, "sync") {
        Ok(Invocation::RequestResponse)
    } else if same(low, "event") || same(low, "async") {
        Ok(Invocation::Event)
    } else if same(low, "dry-run") || same(low, "dryrun") {
        Ok(Invocation::DryRun)
    } else {
        Err(
            "invocation_type: ".to_owned().concat(low).concat(
                " (expected request-response|event|dry-run)",
            ),
        )
    }
}

/// How a function is invoked with this payload, which must be JSON.
pub fn check_invoke(payload: &str, invocation_type: &str) -> (kind: Result<Invocation, String>)
    ensures
        invocation_seen(kind) == match parsed_json(payload@) {
            Err(message) => Err("payload must be JSON: "@ + message),
            Ok(_) => invocation_of(invocation_type@),
        },
{
    match parse_json(payload) {
        Err(message) => Err("payload must be JSON: ".to_owned().concat(message.as_str())),
        Ok(_) => invocation_kind(invocation_type),
    }
}

/// What a function answered: a JSON value if it is one, and else text.
pub open spec fn payload_json(payload: Option<Seq<u8>>) -> JsonView {
    match payload {
        Some(bytes) => match parsed_json_bytes(bytes) {
            Some(json) => json,
            None => JsonView::Text(lossy(bytes)),
        },
        None => JsonView::Null,
    }
}

/// The tail of a log, which comes in base64; a text that does not is taken as it stands.
pub open spec fn log_text(log: Option<Seq<char>>) -> Option<Seq<char>> {
    match log {
        Some(code) => match base64_bytes(code) {
            Some(bytes) => match utf8_text(bytes) {
                Some(text) => Some(text),
                None => Some(code),
            },
            None => Some(code),
        },
        None => None,
    }
}

/// What is shown of an invocation.
pub open spec fn invoke_json(
    status: int,
    error: Option<Seq<char>>,
    version: Option<Seq<char>>,
    log: Option<Seq<char>>,
    payload: JsonView,
) -> JsonView {
    JsonView::Object(
        map![
            "status_code"@ => int_json(status),
            "function_error"@ => text_or_null(error),
            "executed_version"@ => text_or_null(version),
            "log_tail"@ => text_or_null(log),
            "payload"@ => payload,
        ],
    )
}

/// Shows an invocation, given what its log and its payload say.
pub fn show_invoke(
    status_code: i32,
    function_error: Option<String>,
    executed_version: Option<String>,
    log_tail: Option<String>,
    payload: Json,
) -> (json: Json)
    ensures
        json@ == invoke_json(
            status_code as int,
            opt_view(function_error),
            opt_view(executed_version),
            opt_view(log_tail),
            payload@,
        ),
{
    let mut out: Vec<(String, Json)> = Vec::new();
    put(&mut out, "status_code", Json::whole(status_code as i64));
    put(&mut out, "function_error", Json::text_or_null(borrowed(&function_error)));
    put(&mut out, "executed_version", Json::text_or_null(borrowed(&executed_version)));
    put(&mut out, "log_tail", Json::text_or_null(borrowed(&log_tail)));
    put(&mut out, "payload", payload);
    Json::Object(out)
}

/// The tail of a log.
fn read_log(log: Option<String>) -> (text: Option<String>)
    ensures
        opt_view(text) == log_text(opt_view(log)),
{
    match log {
        Some(code) => {
            if let Some(bytes) = decode_base64(code.as_str()) {
                if let Some(text) = utf8_str(bytes.as_slice()) {
                    return Some(text.to_owned());
                }
            }
            Some(code)
        },
        None => None,
    }
}

/// What a function answered.
fn read_payload(payload: Option<Vec<u8>>) -> (json: Json)
    ensures
        json@ == payload_json(
            match payload {
                Some(bytes) => Some(bytes@),
                None => None,
            },
        ),
{
    match payload {
        Some(bytes) => match parse_json_bytes(bytes.as_slice()) {
            Some(json) => json,
            None => Json::Text(lossy_string(bytes.as_slice())),
        },
        None => Json::Null,
    }
}

/// Shows an invocation.
pub fn invoke(
    status_code: i32,
    function_error: Option<String>,
    executed_version: Option<String>,
    log_result: Option<String>,
    payload: Option<Vec<u8>>,
) -> (json: Json)
    ensures
        json@ == invoke_json(
            status_code as int,
            opt_view(function_error),
            opt_view(executed_version),
            log_text(opt_view(log_result)),
            payload_json(
                match payload {
                    Some(bytes) => Some(bytes@),
                    None => None,
                },
            ),
        ),
{
    show_invoke(
        status_code,
        function_error,
        executed_version,
        read_log(log_result),
        read_payload(payload),
    )
}

/// A function as the service lists it.
#[derive(Debug)]
pub struct FunctionInfo {
    pub name: Option<String>,
    pub runtime: Option<String>,
    pub arn: Option<String>,
    pub memory: Option<i32>,
    pub timeout: Option<i32>,
    pub last_modified: Option<String>,
    pub handler: Option<String>,
}

/// A machine number as an integer.
pub open spec fn small(value: Option<i32>) -> Option<int> {
    match value {
        Some(i) => Some(i as int),
        None => None,
    }
}

/// What is shown of a function.
pub open spec fn function_json(f: FunctionInfo) -> JsonView {
    JsonView::Object(
        map![
            "name"@ => text_or_null(opt_view(f.name)),
            "runtime"@ => text_or_null(opt_view(f.runtime)),
            "arn"@ => text_or_null(opt_view(f.arn)),
            "memory_mb"@ => int_or_null(small(f.memory)),
            "timeout_s"@ => int_or_null(small(f.timeout)),
            "last_modified"@ => text_or_null(opt_view(f.last_modified)),
            "handler"@ => text_or_null(opt_view(f.handler)),
        ],
    )
}

/// A number that may be missing.
pub(crate) fn small_or_null(value: Option<i32>) -> (json: Json)
    ensures
        json@ == int_or_null(small(value)),
{
    match value {
        Some(i) => Json::whole(i as i64),
        None => Json::Null,
    }
}

/// Shows the functions on a page.
pub fn list(functions: &Vec<FunctionInfo>) -> (lines: Vec<Json>)
    ensures
        items_view(lines@) == functions@.map_values(|f: FunctionInfo| function_json(f)),
{
    let mut lines: Vec<Json> = Vec::new();
    let ghost whole = functions@.map_values(|f: FunctionInfo| function_json(f));
    let mut i: usize = 0;
    while i < functions.len()
        invariant
            i <= functions@.len(),
            whole == functions@.map_values(|f: FunctionInfo| function_json(f)),
            items_view(lines@) == whole.take(i as int),
        decreases functions@.len() - i,
    {
        let f = &functions[i];
        let mut out: Vec<(String, Json)> = Vec::new();
        put(&mut out, "name", Json::text_or_null(borrowed(&f.name)));
        put(&mut out, "runtime", Json::text_or_null(borrowed(&f.runtime)));
        put(&mut out, "arn", Json::text_or_null(borrowed(&f.arn)));
        put(&mut out, "memory_mb", small_or_null(f.memory));
        put(&mut out, "timeout_s", small_or_null(f.timeout));
        put(&mut out, "last_modified", Json::text_or_null(borrowed(&f.last_modified)));
        put(&mut out, "handler", Json::text_or_null(borrowed(&f.handler)));
        let line = Json::Object(out);
        proof {
            lemma_items_push(lines@, line);
            assert(whole.take(i + 1) =~= whole.take(i as int).push(whole[i as int]));
        }
        lines.push(line);
        i = i + 1;
    }
    assert(whole.take(i as int) =~= whole);
    lines
}

}
