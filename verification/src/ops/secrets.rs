//! Operations on the secrets of Secrets Manager.
use vstd::prelude::*;
use vstd::string::*;

use crate::json::items_view;
use crate::json::lemma_items_push;
use crate::json::put;
use crate::json::text_or_empty;
use crate::json::text_or_null;
use crate::json::Json;
use crate::json::JsonView;
use crate::options::borrowed;
use crate::options::needed;
use crate::options::opt_view;
use crate::options::require;
use crate::options::seen;

verus! {

/// What `secrets_get_value` asks for.
pub fn op_secrets_get_value_request(opts: &Json) -> (id: Result<String, String>)
    ensures
        seen(id) == needed(opts@, "secret_id"@, "missing secret_id"@),
{
    match require(opts, "secret_id", "missing secret_id") {
        Ok(id) => Ok(id.to_owned()),
        Err(why) => Err(why),
    }
}

/// Answers with a secret.
pub fn op_secrets_get_value_reply(
    name: Option<String>,
    secret_string: Option<String>,
    version_id: Option<String>,
) -> (json: Json)
    ensures
        json@ == JsonView::Object(
            map![
                "name"@ => text_or_empty(opt_view(name)),
                "secret_string"@ => text_or_null(opt_view(secret_string)),
                "version_id"@ => text_or_empty(opt_view(version_id)),
            ],
        ),
{
    let mut out: Vec<(String, Json)> = Vec::new();
    put(&mut out, "name", Json::text_or_empty(borrowed(&name)));
    put(&mut out, "secret_string", Json::text_or_null(borrowed(&secret_string)));
    put(&mut out, "version_id", Json::text_or_empty(borrowed(&version_id)));
    Json::Object(out)
}

/// A secret, and the name or the ID that it goes by.
#[derive(Debug)]
pub struct Secret {
    pub id: String,
    pub secret_string: String,
}

impl View for Secret {
    type V = (Seq<char>, Seq<char>);

    open spec fn view(&self) -> (Seq<char>, Seq<char>) {
        (self.id@, self.secret_string@)
    }
}

/// A secret in the options, and what it goes by under `label`.
pub open spec fn secret_in(opts: JsonView, label: Seq<char>, missing: Seq<char>) -> Result<
    (Seq<char>, Seq<char>),
    Seq<char>,
> {
    match needed(opts, label, missing) {
        Err(why) => Err(why),
        Ok(id) => match needed(opts, "secret_string"@, "missing secret_string"@) {
            Err(why) => Err(why),
            Ok(secret) => Ok((id, secret)),
        },
    }
}

/// Reads a secret in the options.
fn read_secret(opts: &Json, label: &str, missing: &str) -> (secret: Result<Secret, String>)
    ensures
        seen(secret) == secret_in(opts@, label@, missing@),
{
    let id = match require(opts, label, missing) {
        Ok(id) => id.to_owned(),
        Err(why) => return Err(why),
    };
    match require(opts, "secret_string", "missing secret_string") {
        Ok(secret) => Ok(Secret { id, secret_string: secret.to_owned() }),
        Err(why) => Err(why),
    }
}

/// What `secrets_create` asks for: a secret called `name`.
pub fn op_secrets_create_request(opts: &Json) -> (secret: Result<Secret, String>)
    ensures
        seen(secret) == secret_in(opts@, "name"@, "missing name"@),
{
    read_secret(opts, "name", "missing name")
}

/// Answers that a secret was made.
pub fn op_secrets_create_reply(arn: Option<String>, name: Option<String>) -> (json: Json)
    ensures
        json@ == JsonView::Object(
            map![
                "arn"@ => text_or_empty(opt_view(arn)),
                "name"@ => text_or_empty(opt_view(name)),
            ],
        ),
{
    let mut out: Vec<(String, Json)> = Vec::new();
    put(&mut out, "arn", Json::text_or_empty(borrowed(&arn)));
    put(&mut out, "name", Json::text_or_empty(borrowed(&name)));
    Json::Object(out)
}

/// What `secrets_put_value` asks for: a new value for the secret `secret_id`.
pub fn op_secrets_put_value_request(opts: &Json) -> (secret: Result<Secret, String>)
    ensures
        seen(secret) == secret_in(opts@, "secret_id"@, "missing secret_id"@),
{
    read_secret(opts, "secret_id", "missing secret_id")
}

/// Answers that a secret has a new value.
pub fn op_secrets_put_value_reply(version_id: Option<String>) -> (json: Json)
    ensures
        json@ == JsonView::Object(map!["version_id"@ => text_or_empty(opt_view(version_id))]),
{
    let mut out: Vec<(String, Json)> = Vec::new();
    put(&mut out, "version_id", Json::text_or_empty(borrowed(&version_id)));
    Json::Object(out)
}

/// A secret in a list.
#[derive(Debug)]
pub struct SecretEntry {
    pub name: Option<String>,
    pub arn: Option<String>,
}

/// What is answered of a secret in a list.
pub open spec fn entry_json(entry: SecretEntry) -> JsonView {
    JsonView::Object(
        map![
            "name"@ => text_or_empty(opt_view(entry.name)),
            "arn"@ => text_or_empty(opt_view(entry.arn)),
        ],
    )
}

/// Answers with the secrets.
pub fn op_secrets_list_reply(entries: &Vec<SecretEntry>) -> (json: Json)
    ensures
        json@ == JsonView::Object(
            map![
                "secrets"@ => JsonView::Array(
                    entries@.map_values(|e: SecretEntry| entry_json(e)),
                ),
            ],
        ),
{
    let mut items: Vec<Json> = Vec::new();
    let ghost whole = entries@.map_values(|e: SecretEntry| entry_json(e));
    let mut i: usize = 0;
    while i < entries.len()
        invariant
            i <= entries@.len(),
            whole == entries@.map_values(|e: SecretEntry| entry_json(e)),
            items_view(items@) == whole.take(i as int),
        decreases entries@.len() - i,
    {
        let mut entry: Vec<(String, Json)> = Vec::new();
        put(&mut entry, "name", Json::text_or_empty(borrowed(&entries[i].name)));
        put(&mut entry, "arn", Json::text_or_empty(borrowed(&entries[i].arn)));
        let item = Json::Object(entry);
        proof {
            lemma_items_push(items@, item);
            assert(whole.take(i + 1) =~= whole.take(i as int).push(whole[i as int]));
        }
        items.push(item);
        i = i + 1;
    }
    assert(whole.take(i as int) =~= whole);
    let mut out: Vec<(String, Json)> = Vec::new();
    put(&mut out, "secrets", Json::Array(items));
    Json::Object(out)
}

}
