//! Operations on STS.
use vstd::prelude::*;
use vstd::string::*;

use crate::json::put;
use crate::json::text_or_empty;
use crate::json::text_or_null;
use crate::json::Json;
use crate::json::JsonView;
use crate::options::borrowed;
use crate::options::needed;
use crate::options::opt_view;
use crate::options::require;
use crate::options::seen;
use crate::sts::Credentials;

verus! {

/// Answers with who is calling.
pub fn op_sts_caller_identity_reply(
    account: Option<String>,
    arn: Option<String>,
    user_id: Option<String>,
) -> (json: Json)
    ensures
        json@ == JsonView::Object(
            map![
                "account"@ => text_or_empty(opt_view(account)),
                "arn"@ => text_or_empty(opt_view(arn)),
                "user_id"@ => text_or_empty(opt_view(user_id)),
            ],
        ),
{
    let mut out: Vec<(String, Json)> = Vec::new();
    put(&mut out, "account", Json::text_or_empty(borrowed(&account)));
    put(&mut out, "arn", Json::text_or_empty(borrowed(&arn)));
    put(&mut out, "user_id", Json::text_or_empty(borrowed(&user_id)));
    Json::Object(out)
}

/// Which role to assume, and under which name.
#[derive(Debug)]
pub struct Role {
    pub role_arn: String,
    pub session_name: String,
}

impl View for Role {
    type V = (Seq<char>, Seq<char>);

    open spec fn view(&self) -> (Seq<char>, Seq<char>) {
        (self.role_arn@, self.session_name@)
    }
}

/// What `sts_assume_role` asks for: `role_arn`, in a session called `session_name` or
/// `stryke-aws`.
pub fn op_sts_assume_role_request(opts: &Json) -> (role: Result<Role, String>)
    ensures
        seen(role) == match needed(opts@, "role_arn"@, "missing role_arn"@) {
            Ok(arn) => Ok((arn, opts@.text_field("session_name"@).unwrap_or("stryke-aws"@))),
            Err(message) => Err(message),
        },
{
    match require(opts, "role_arn", "missing role_arn") {
        Ok(arn) => {
            let session = opts.text_at("session_name").unwrap_or("stryke-aws");
            Ok(Role { role_arn: arn.to_owned(), session_name: session.to_owned() })
        },
        Err(message) => Err(message),
    }
}

/// What is answered of an assumed role: null for what is missing.
pub open spec fn role_json(role: Option<Seq<char>>, credentials: Option<Credentials>) -> JsonView {
    JsonView::Object(
        map![
            "assumed_role"@ => text_or_null(role),
            "access_key_id"@ => match credentials {
                Some(c) => JsonView::Text(c.access_key_id@),
                None => JsonView::Null,
            },
            "secret_access_key"@ => match credentials {
                Some(c) => JsonView::Text(c.secret_access_key@),
                None => JsonView::Null,
            },
            "session_token"@ => match credentials {
                Some(c) => JsonView::Text(c.session_token@),
                None => JsonView::Null,
            },
            "expiration"@ => match credentials {
                Some(c) => JsonView::Text(c.expiration@),
                None => JsonView::Null,
            },
        ],
    )
}

/// Answers with an assumed role's credentials.
pub fn op_sts_assume_role_reply(role: Option<String>, credentials: Option<Credentials>) -> (json:
    Json)
    ensures
        json@ == role_json(opt_view(role), credentials),
{
    let mut out: Vec<(String, Json)> = Vec::new();
    put(&mut out, "assumed_role", Json::text_or_null(borrowed(&role)));
    match credentials {
        Some(c) => {
            put(&mut out, "access_key_id", Json::Text(c.access_key_id));
            put(&mut out, "secret_access_key", Json::Text(c.secret_access_key));
            put(&mut out, "session_token", Json::Text(c.session_token));
            put(&mut out, "expiration", Json::Text(c.expiration));
        },
        None => {
            put(&mut out, "access_key_id", Json::Null);
            put(&mut out, "secret_access_key", Json::Null);
            put(&mut out, "session_token", Json::Null);
            put(&mut out, "expiration", Json::Null);
        },
    }
    Json::Object(out)
}

}
