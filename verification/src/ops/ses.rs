//! Operations on SES.
use vstd::prelude::*;
use vstd::string::*;

use crate::json::put;
use crate::json::text_or_empty;
use crate::json::Json;
use crate::json::JsonView;
use crate::ops::s3::texts_at;
use crate::options::borrowed;
use crate::options::needed;
use crate::options::opt_view;
use crate::options::require;
use crate::options::seen;
use crate::options::strings_view;
use crate::options::text_list;

verus! {

/// An email as contracts speak of it.
pub ghost struct EmailView {
    pub from: Seq<char>,
    pub to: Seq<Seq<char>>,
    pub subject: Seq<char>,
    pub body: Seq<char>,
    pub html: bool,
}

/// An email to send.
#[derive(Debug)]
pub struct Email {
    pub from: String,
    pub to: Vec<String>,
    pub subject: String,
    pub body: String,
    pub html: bool,
}

impl View for Email {
    type V = EmailView;

    open spec fn view(&self) -> EmailView {
        EmailView {
            from: self.from@,
            to: strings_view(self.to@),
            subject: self.subject@,
            body: self.body@,
            html: self.html,
        }
    }
}

/// What `ses_send_email` asks for: an email from `from` to one or more recipients, in plain text
/// unless the options say that it is HTML.
pub open spec fn email_in(opts: JsonView) -> Result<EmailView, Seq<char>> {
    match needed(opts, "from"@, "missing from"@) {
        Err(why) => Err(why),
        Ok(from) => match text_list(opts.at("to"@)) {
            Err(why) => Err(why),
            Ok(to) => if to.len() == 0 {
                Err("to must name at least one recipient"@)
            } else {
                Ok(
                    EmailView {
                        from,
                        to,
                        subject: opts.text_field("subject"@).unwrap_or(""@),
                        body: opts.text_field("body"@).unwrap_or(""@),
                        html: opts.bool_field("html"@).unwrap_or(false),
                    },
                )
            },
        },
    }
}

/// What `ses_send_email` asks for.
pub fn op_ses_send_email_request(opts: &Json) -> (email: Result<Email, String>)
    ensures
        seen(email) == email_in(opts@),
{
    let from = match require(opts, "from", "missing from") {
        Ok(from) => from.to_owned(),
        Err(why) => return Err(why),
    };
    let to = match texts_at(opts, "to") {
        Ok(to) => to,
        Err(why) => return Err(why),
    };
    if to.len() == 0 {
        return Err("to must name at least one recipient".to_owned());
    }
    let subject = opts.text_at("subject").unwrap_or("").to_owned();
    let body = opts.text_at("body").unwrap_or("").to_owned();
    let html = opts.bool_at("html").unwrap_or(false);
    Ok(Email { from, to, subject, body, html })
}

/// Answers that an email was sent.
pub fn op_ses_send_email_reply(message_id: Option<String>) -> (json: Json)
    ensures
        json@ == JsonView::Object(map!["message_id"@ => text_or_empty(opt_view(message_id))]),
{
    let mut out: Vec<(String, Json)> = Vec::new();
    put(&mut out, "message_id", Json::text_or_empty(borrowed(&message_id)));
    Json::Object(out)
}

}
