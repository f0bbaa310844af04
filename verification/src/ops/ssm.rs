//! Operations on the parameters of SSM.
use vstd::prelude::*;
use vstd::string::*;

use crate::json::int_json;
use crate::json::items_view;
use crate::json::lemma_items_push;
use crate::json::put;
use crate::json::text_or_empty;
use crate::json::text_or_null;
use crate::json::Json;
use crate::json::JsonView;
use crate::options::borrowed;
use crate::options::needed;
use crate::options::opt_view;
use crate::options::require;
use crate::options::seen;

verus! {

/// Which parameter to read.
#[derive(Debug)]
pub struct Reading {
    pub name: String,
    pub decrypt: bool,
}

impl View for Reading {
    type V = (Seq<char>, bool);

    open spec fn view(&self) -> (Seq<char>, bool) {
        (self.name@, self.decrypt)
    }
}

/// What `ssm_get_parameter` asks for: the parameter `name`, decrypted only where the options say
/// so.
pub fn op_ssm_get_parameter_request(opts: &Json) -> (what: Result<Reading, String>)
    ensures
        seen(what) == match needed(opts@, "name"@, "missing name"@) {
            Err(why) => Err(why),
            Ok(name) => Ok((name, opts@.bool_field("with_decryption"@).unwrap_or(false))),
        },
{
    match require(opts, "name", "missing name") {
        Ok(name) => {
            let decrypt = opts.bool_at("with_decryption").unwrap_or(false);
            Ok(Reading { name: name.to_owned(), decrypt })
        },
        Err(why) => Err(why),
    }
}

/// A parameter with its version.
#[derive(Debug)]
pub struct Parameter {
    pub name: Option<String>,
    pub value: Option<String>,
    pub version: i64,
}

/// What is answered of a parameter; one that is missing has version 0.
pub open spec fn parameter_json(parameter: Option<Parameter>) -> JsonView {
    JsonView::Object(
        map![
            "name"@ => match parameter {
                Some(p) => text_or_empty(opt_view(p.name)),
                None => JsonView::Text(""@),
            },
            "value"@ => match parameter {
                Some(p) => text_or_null(opt_view(p.value)),
                None => JsonView::Null,
            },
            "version"@ => match parameter {
                Some(p) => int_json(p.version as int),
                None => int_json(0),
            },
        ],
    )
}

/// Answers with a parameter.
pub fn op_ssm_get_parameter_reply(parameter: Option<Parameter>) -> (json: Json)
    ensures
        json@ == parameter_json(parameter),
{
    let mut out: Vec<(String, Json)> = Vec::new();
    match parameter {
        Some(p) => {
            put(&mut out, "name", Json::text_or_empty(borrowed(&p.name)));
            put(&mut out, "value", Json::text_or_null(borrowed(&p.value)));
            put(&mut out, "version", Json::whole(p.version));
        },
        None => {
            put(&mut out, "name", Json::text(""));
            put(&mut out, "value", Json::Null);
            put(&mut out, "version", Json::whole(0));
        },
    }
    Json::Object(out)
}

/// A parameter to write.
#[derive(Debug)]
pub struct Writing {
    pub name: String,
    pub value: String,
    pub kind: String,
    pub overwrite: bool,
}

impl View for Writing {
    type V = (Seq<char>, Seq<char>, Seq<char>, bool);

    open spec fn view(&self) -> (Seq<char>, Seq<char>, Seq<char>, bool) {
        (self.name@, self.value@, self.kind@, self.overwrite)
    }
}

/// What `ssm_put_parameter` asks for: a parameter of the given `type`, or `String`, which takes the
/// place of another only where the options say so.
pub fn op_ssm_put_parameter_request(opts: &Json) -> (what: Result<Writing, String>)
    ensures
        seen(what) == match needed(opts@, "name"@, "missing name"@) {
            Err(why) => Err(why),
            Ok(name) => match needed(opts@, "value"@, "missing value"@) {
                Err(why) => Err(why),
                Ok(value) => Ok(
                    (
                        name,
                        value,
                        opts@.text_field("type"@).unwrap_or("String"@),
                        opts@.bool_field("overwrite"@).unwrap_or(false),
                    ),
                ),
            },
        },
{
    let name = match require(opts, "name", "missing name") {
        Ok(name) => name.to_owned(),
        Err(why) => return Err(why),
    };
    let value = match require(opts, "value", "missing value") {
        Ok(value) => value.to_owned(),
        Err(why) => return Err(why),
    };
    let kind = opts.text_at("type").unwrap_or("String").to_owned();
    let overwrite = opts.bool_at("overwrite").unwrap_or(false);
    Ok(Writing { name, value, kind, overwrite })
}

/// Answers that a parameter was written.
pub fn op_ssm_put_parameter_reply(name: &str, version: i64) -> (json: Json)
    ensures
        json@ == JsonView::Object(
            map!["name"@ => JsonView::Text(name@), "version"@ => int_json(version as int)],
        ),
{
    let mut out: Vec<(String, Json)> = Vec::new();
    put(&mut out, "name", Json::text(name));
    put(&mut out, "version", Json::whole(version));
    Json::Object(out)
}

/// Which parameters to read.
#[derive(Debug)]
pub struct Browsing {
    pub path: String,
    pub recursive: bool,
    pub decrypt: bool,
}

impl View for Browsing {
    type V = (Seq<char>, bool, bool);

    open spec fn view(&self) -> (Seq<char>, bool, bool) {
        (self.path@, self.recursive, self.decrypt)
    }
}

/// What `ssm_get_parameters_by_path` asks for.
pub fn op_ssm_get_parameters_by_path_request(opts: &Json) -> (what: Result<Browsing, String>)
    ensures
        seen(what) == match needed(opts@, "path"@, "missing path"@) {
            Err(why) => Err(why),
            Ok(path) => Ok(
                (
                    path,
                    opts@.bool_field("recursive"@).unwrap_or(false),
                    opts@.bool_field("with_decryption"@).unwrap_or(false),
                ),
            ),
        },
{
    match require(opts, "path", "missing path") {
        Ok(path) => {
            let recursive = opts.bool_at("recursive").unwrap_or(false);
            let decrypt = opts.bool_at("with_decryption").unwrap_or(false);
            Ok(Browsing { path: path.to_owned(), recursive, decrypt })
        },
        Err(why) => Err(why),
    }
}

/// A parameter in a list.
#[derive(Debug)]
pub struct ParameterEntry {
    pub name: Option<String>,
    pub value: Option<String>,
}

/// What is answered of a parameter in a list.
pub open spec fn entry_json(entry: ParameterEntry) -> JsonView {
    JsonView::Object(
        map![
            "name"@ => text_or_empty(opt_view(entry.name)),
            "value"@ => text_or_null(opt_view(entry.value)),
        ],
    )
}

/// Answers with parameters.
pub fn op_ssm_get_parameters_by_path_reply(entries: &Vec<ParameterEntry>) -> (json: Json)
    ensures
        json@ == JsonView::Object(
            map![
                "parameters"@ => JsonView::Array(
                    entries@.map_values(|e: ParameterEntry| entry_json(e)),
                ),
            ],
        ),
{
    let mut items: Vec<Json> = Vec::new();
    let ghost whole = entries@.map_values(|e: ParameterEntry| entry_json(e));
    let mut i: usize = 0;
    while i < entries.len()
        invariant
            i <= entries@.len(),
            whole == entries@.map_values(|e: ParameterEntry| entry_json(e)),
            items_view(items@) == whole.take(i as int),
        decreases entries@.len() - i,
    {
        let mut entry: Vec<(String, Json)> = Vec::new();
        put(&mut entry, "name", Json::text_or_empty(borrowed(&entries[i].name)));
        put(&mut entry, "value", Json::text_or_null(borrowed(&entries[i].value)));
        let item = Json::Object(entry);
        proof {
            lemma_items_push(items@, item);
            assert(whole.take(i + 1) =~= whole.take(i as int).push(whole[i as int]));
        }
        items.push(item);
        i = i + 1;
    }
    assert(whole.take(i as int) =~= whole);
    let mut out: Vec<(String, Json)> = Vec::new();
    put(&mut out, "parameters", Json::Array(items));
    Json::Object(out)
}

/// What `ssm_delete_parameter` asks for.
pub fn op_ssm_delete_parameter_request(opts: &Json) -> (name: Result<String, String>)
    ensures
        seen(name) == needed(opts@, "name"@, "missing name"@),
{
    match require(opts, "name", "missing name") {
        Ok(name) => Ok(name.to_owned()),
        Err(why) => Err(why),
    }
}

/// Answers that a parameter was deleted.
pub fn op_ssm_delete_parameter_reply(name: &str) -> (json: Json)
    ensures
        json@ == JsonView::Object(
            map!["name"@ => JsonView::Text(name@), "deleted"@ => JsonView::Bool(true)],
        ),
{
    let mut out: Vec<(String, Json)> = Vec::new();
    put(&mut out, "name", Json::text(name));
    put(&mut out, "deleted", Json::Bool(true));
    Json::Object(out)
}

}
