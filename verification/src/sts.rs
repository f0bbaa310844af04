//! The STS commands: what each asks of the service, and what it shows of the answer.
use vstd::prelude::*;
use vstd::string::*;

use crate::json::put;
use crate::json::text_or_null;
use crate::json::Json;
use crate::json::JsonView;
use crate::options::borrowed;
use crate::options::opt_view;

verus! {

/// An STS command.
#[derive(Debug)]
pub enum StsCmd {
    /// Say who is calling.
    CallerIdentity,
    /// Assume a role and show the temporary credentials.
    AssumeRole { role_arn: String, session: String, duration: i32, external_id: Option<String> },
}

/// What a command asks for.
#[derive(Debug)]
pub enum StsRequest {
    CallerIdentity,
    AssumeRole { role_arn: String, session: String, duration: i32, external_id: Option<String> },
}

/// What a command asks for.
pub fn dispatch(cmd: StsCmd) -> (plan: StsRequest)
    ensures
        plan == match cmd {
            StsCmd::CallerIdentity => StsRequest::CallerIdentity,
            StsCmd::AssumeRole {
                role_arn,
                session,
                duration,
                external_id,
            } => StsRequest::AssumeRole { role_arn, session, duration, external_id },
        },
{
    match cmd {
        StsCmd::CallerIdentity => StsRequest::CallerIdentity,
        StsCmd::AssumeRole {
            role_arn,
            session,
            duration,
            external_id,
        } => StsRequest::AssumeRole { role_arn, session, duration, external_id },
    }
}

/// Shows who is calling.
pub fn caller_identity(account: Option<String>, arn: Option<String>, user_id: Option<String>) -> (
    json: Json)
    ensures
        json@ == JsonView::Object(
            map![
                "account"@ => text_or_null(opt_view(account)),
                "arn"@ => text_or_null(opt_view(arn)),
                "user_id"@ => text_or_null(opt_view(user_id)),
            ],
        ),
{
    let mut out: Vec<(String, Json)> = Vec::new();
    put(&mut out, "account", Json::text_or_null(borrowed(&account)));
    put(&mut out, "arn", Json::text_or_null(borrowed(&arn)));
    put(&mut out, "user_id", Json::text_or_null(borrowed(&user_id)));
    Json::Object(out)
}

/// Temporary credentials.
#[derive(Debug)]
pub struct Credentials {
    pub access_key_id: String,
    pub secret_access_key: String,
    pub session_token: String,
    pub expiration: String,
}

/// What is shown of an assumed role.
pub open spec fn role_json(creds: Credentials, role: Option<Seq<char>>) -> JsonView {
    JsonView::Object(
        map![
            "access_key_id"@ => JsonView::Text(creds.access_key_id@),
            "secret_access_key"@ => JsonView::Text(creds.secret_access_key@),
            "session_token"@ => JsonView::Text(creds.session_token@),
            "expiration"@ => JsonView::Text(creds.expiration@),
            "assumed_role_arn"@ => text_or_null(role),
        ],
    )
}

/// Shows an assumed role; an answer without credentials is an error.
pub fn assume_role(credentials: Option<Credentials>, role: Option<String>) -> (json: Result<
    Json,
    String,
>)
    ensures
        match credentials {
            Some(creds) => json matches Ok(shows) && shows@ == role_json(creds, opt_view(role)),
            None => json matches Err(message) && message@ == "no credentials in response"@,
        },
{
    let creds = match credentials {
        Some(creds) => creds,
        None => return Err("no credentials in response".to_owned()),
    };
    let mut out: Vec<(String, Json)> = Vec::new();
    put(&mut out, "access_key_id", Json::Text(creds.access_key_id));
    put(&mut out, "secret_access_key", Json::Text(creds.secret_access_key));
    put(&mut out, "session_token", Json::Text(creds.session_token));
    put(&mut out, "expiration", Json::Text(creds.expiration));
    put(&mut out, "assumed_role_arn", Json::text_or_null(borrowed(&role)));
    Ok(Json::Object(out))
}

}
