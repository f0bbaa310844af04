//! Operations on Lambda.
use vstd::prelude::*;
use vstd::string::*;

use crate::bytes::utf8_str;
use crate::bytes::utf8_text;
use crate::json::int_json;
use crate::json::put;
use crate::json::Json;
use crate::json::JsonView;
use crate::options::keep_present;
use crate::options::needed;
use crate::options::present;
use crate::options::require;
use crate::options::seen;
use crate::options::text_array;
use crate::options::texts_json;
use crate::wire::json_text;
use crate::wire::parse_json;
use crate::wire::parsed_json;
use crate::wire::write_json;

verus! {

/// Which function to invoke, and with what.
#[derive(Debug)]
pub struct Invoking {
    pub function: String,
    pub payload: String,
}

impl View for Invoking {
    type V = (Seq<char>, Seq<char>);

    open spec fn view(&self) -> (Seq<char>, Seq<char>) {
        (self.function@, self.payload@)
    }
}

/// What `lambda_invoke` asks for: `function`, with the JSON text of `payload`, or of null.
pub fn op_lambda_invoke_request(opts: &Json) -> (what: Result<Invoking, String>)
    ensures
        seen(what) == match needed(opts@, "function"@, "missing function"@) {
            Err(message) => Err(message),
            Ok(function) => Ok((function, json_text(opts@.at("payload"@)))),
        },
{
    let function = match require(opts, "function", "missing function") {
        Ok(function) => function.to_owned(),
        Err(message) => return Err(message),
    };
    let payload = match opts.get("payload") {
        Some(value) => write_json(value),
        None => write_json(&Json::Null),
    };
    Ok(Invoking { function, payload })
}

/// The text that a function answered with; bytes that are no text count as an empty one.
pub open spec fn answer_text(payload: Option<Seq<u8>>) -> Seq<char> {
    match payload {
        Some(bytes) => utf8_text(bytes).unwrap_or(""@),
        None => ""@,
    }
}

/// A text as the JSON value that it denotes, and else as it stands.
pub open spec fn json_or_text(text: Seq<char>) -> JsonView {
    match parsed_json(text) {
        Ok(json) => json,
        Err(_) => JsonView::Text(text),
    }
}

/// What is answered of an invocation.
pub open spec fn invoked_json(function: Seq<char>, status: int, result: JsonView) -> JsonView {
    JsonView::Object(
        map![
            "function"@ => JsonView::Text(function),
            "status_code"@ => int_json(status),
            "result"@ => result,
        ],
    )
}

/// Answers with the result of an invocation, given what it is.
pub fn show_result(function: &str, status_code: i32, result: Json) -> (json: Json)
    ensures
        json@ == invoked_json(function@, status_code as int, result@),
{
    let mut out: Vec<(String, Json)> = Vec::new();
    put(&mut out, "function", Json::text(function));
    put(&mut out, "status_code", Json::whole(status_code as i64));
    put(&mut out, "result", result);
    Json::Object(out)
}

/// Answers with the result of an invocation.
pub fn op_lambda_invoke_reply(function: &str, status_code: i32, payload: Option<Vec<u8>>) -> (json:
    Json)
    ensures
        json@ == invoked_json(
            function@,
            status_code as int,
            json_or_text(
                answer_text(
                    match payload {
                        Some(bytes) => Some(bytes@),
                        None => None,
                    },
                ),
            ),
        ),
{
    let text = match payload {
        Some(bytes) => match utf8_str(bytes.as_slice()) {
            Some(text) => text.to_owned(),
            None => "".to_owned(),
        },
        None => "".to_owned(),
    };
    let result = match parse_json(text.as_str()) {
        Ok(json) => json,
        Err(_) => Json::Text(text),
    };
    show_result(function, status_code, result)
}

/// Answers with the functions that have a name.
pub fn op_lambda_list_functions_reply(names: Vec<Option<String>>) -> (json: Json)
    ensures
        json@ == JsonView::Object(map!["functions"@ => texts_json(present(names@))]),
{
    let mut out: Vec<(String, Json)> = Vec::new();
    put(&mut out, "functions", text_array(&keep_present(names)));
    Json::Object(out)
}

}
