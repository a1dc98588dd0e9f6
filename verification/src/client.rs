//! The dispatcher: it holds where and as whom to send, prepares the request
//! for a message, and reads the answer.
//!
//! The library makes no connection itself. [`RudderAnalytics::send`] is
//! handed the transport, which carries one request to the data plane and
//! reports the status of the answer.

use crate::errors::SendError;
use crate::message::{Message, MessageView};
use crate::text::{decimal, decimal_string};
use crate::validation::{validate, validation, ValidationError};
use crate::value::Object;
use crate::wire::{envelope, envelope_of};
use vstd::prelude::*;

verus! {

/// The seconds after which a request that has not been answered is given
/// up. The transport is to be set to it.
pub const REQUEST_TIMEOUT_SECS: u64 = 10;

/// The one status that counts as success.
pub const STATUS_OK: u16 = 200;

/// Where to send, and as whom.
#[derive(Clone, Debug, PartialEq, Eq)]
pub struct RudderAnalytics {
    pub write_key: String,
    pub data_plane_url: String,
}

/// One request to the data plane: a POST to `url`, with basic authentication
/// by `username` and `password`, whose body is `body` as JSON.
#[derive(Clone, Debug, PartialEq, Eq)]
pub struct Request {
    pub url: String,
    pub username: String,
    pub password: String,
    pub body: Object,
}

/// The words that `reqwest::StatusCode` displays after the number of the
/// status `code`: the reason phrase that is customary for it, or
/// `<unknown status code>` for a status that has none.
pub uninterp spec fn reason_phrase(code: u16) -> Seq<char>;

/// How a status is shown: a status that can be one of an HTTP answer, which
/// is a number from 100 to 999, by its number, a space and its reason
/// phrase; any other number by its digits alone.
pub open spec fn status_display(status: u16) -> Seq<char> {
    if 100 <= status <= 999 {
        decimal(status as nat) + seq![' '] + reason_phrase(status)
    } else {
        decimal(status as nat)
    }
}

/// The text that reports an answer with a status other than 200.
pub open spec fn status_text(status: u16) -> Seq<char> {
    "status code: "@ + status_display(status) + ", message: Invalid request"@
}

/// Whether `request` is the request by which `client` sends `message` at
/// `sent_at`: to the data plane's address followed by the path of the
/// message's kind, in the name of the write key with an empty password, and
/// with the message in its wire shape as the body. No request sends a
/// message that validation refuses.
pub open spec fn is_request_for(
    request: Request,
    client: RudderAnalytics,
    message: MessageView,
    sent_at: Seq<char>,
) -> bool {
    &&& validation(message) matches Ok(path)
    &&& request.url@ == client.data_plane_url@ + path
    &&& request.username@ == client.write_key@
    &&& request.password@ == Seq::<char>::empty()
    &&& request.body@ == envelope_of(message, sent_at)
}

/// Whether `sent` is what sending ends in when the transport reports
/// `answer`: success for the status 200, an invalid request that names the
/// status for any other, and the transport's own failure where it failed.
pub open spec fn is_outcome_of(
    answer: Result<u16, reqwest::Error>,
    sent: Result<(), SendError>,
) -> bool {
    match answer {
        Ok(status) => if status == 200 {
            sent is Ok
        } else {
            sent matches Err(SendError::InvalidRequest(text)) && text@ == status_text(status)
        },
        Err(failure) => sent matches Err(SendError::RequestError(carried)) && carried == failure,
    }
}

/// Whether `sent` reports that validation refused a message for `error`.
pub open spec fn is_refusal(error: ValidationError, sent: Result<(), SendError>) -> bool {
    sent matches Err(SendError::InvalidRequest(text)) && text@ == error.text()
}

/// The text that reports a status begins with a fixed opening, which the
/// digits of the status follow, and ends with a fixed ending.
pub proof fn lemma_status_text_holds_status(status: u16)
    ensures
        status_text(status).len() == 13 + status_display(status).len() + 26,
        status_text(status).subrange(0, 13) == "status code: "@,
        status_text(status).subrange(13, 13 + decimal(status as nat).len() as int) == decimal(
            status as nat,
        ),
        status_text(status).subrange(
            13 + status_display(status).len() as int,
            status_text(status).len() as int,
        ) == ", message: Invalid request"@,
{
    reveal_strlit("status code: ");
    reveal_strlit(", message: Invalid request");
    let digits = decimal(status as nat);
    let shown = status_display(status);
    let text = status_text(status);
    assert(shown.subrange(0, digits.len() as int) =~= digits);
    assert(text.subrange(0, 13) =~= "status code: "@);
    assert(text.subrange(13, 13 + digits.len() as int) =~= digits);
    assert(text.subrange(13 + shown.len() as int, text.len() as int)
        =~= ", message: Invalid request"@);
}

/// What `reqwest::StatusCode` displays for the status `code`, by
/// `StatusCode::from_u16` and the type's `Display`. `from_u16` takes the
/// numbers from 100 to 999 and no others. `Display` writes the number in
/// base ten, a space, and the reason phrase of the status.
#[verifier::external_body]
fn status_line(code: u16) -> (line: Option<String>)
    ensures
        line is Some <==> 100 <= code <= 999,
        line matches Some(text) ==> text@ == decimal(code as nat) + seq![' '] + reason_phrase(
            code,
        ),
{
    match reqwest::StatusCode::from_u16(code) {
        Ok(status) => Some(status.to_string()),
        Err(_) => None,
    }
}

/// The text that reports an answer with the status `status`.
pub fn status_message(status: u16) -> (text: String)
    ensures
        text@ == status_text(status),
{
    let shown = match status_line(status) {
        Some(line) => line,
        None => decimal_string(status),
    };
    let mut text = "status code: ".to_owned();
    text.append(shown.as_str());
    text.append(", message: Invalid request");
    text
}

impl RudderAnalytics {
    /// A dispatcher that sends to the data plane at `data_plane_url` in the
    /// name of `write_key`.
    pub fn load(write_key: String, data_plane_url: String) -> (client: RudderAnalytics)
        ensures
            client.write_key == write_key,
            client.data_plane_url == data_plane_url,
    {
        RudderAnalytics { write_key, data_plane_url }
    }

    /// The request by which `msg` is sent at `sent_at`, or the reason for
    /// which validation refuses it.
    pub fn request(&self, msg: &Message, sent_at: &str) -> (result: Result<Request, SendError>)
        ensures
            match validation(msg@) {
                Ok(_) => result matches Ok(request) && is_request_for(
                    request,
                    *self,
                    msg@,
                    sent_at@,
                ),
                Err(error) => result matches Err(SendError::InvalidRequest(text)) && text@
                    == error.text(),
            },
    {
        match validate(msg) {
            Ok(path) => {
                let mut url = self.data_plane_url.clone();
                url.append(path);
                Ok(
                    Request {
                        url,
                        username: self.write_key.clone(),
                        password: String::new(),
                        body: envelope(msg, sent_at),
                    },
                )
            },
            Err(error) => Err(SendError::InvalidRequest(error.message().to_owned())),
        }
    }

    /// What sending ends in when the transport reports `answer`: the status
    /// of the data plane's answer, or its own failure.
    pub fn outcome(answer: Result<u16, reqwest::Error>) -> (sent: Result<(), SendError>)
        ensures
            is_outcome_of(answer, sent),
    {
        match answer {
            Ok(status) => {
                if status == STATUS_OK {
                    Ok(())
                } else {
                    Err(SendError::InvalidRequest(status_message(status)))
                }
            },
            Err(failure) => Err(SendError::RequestError(failure)),
        }
    }

    /// Sends `msg` at `sent_at`: validates it, and hands the request for it
    /// to `transport` once. A message that validation refuses is reported as
    /// an invalid request, and `transport` is not called. Nothing is tried a
    /// second time.
    pub fn send<F>(&self, msg: &Message, sent_at: &str, transport: F) -> (sent: Result<
        (),
        SendError,
    >) where F: FnOnce(Request) -> Result<u16, reqwest::Error>
        requires
            forall|request: Request|
                is_request_for(request, *self, msg@, sent_at@) ==> call_requires(
                    transport,
                    (request,),
                ),
        ensures
            match validation(msg@) {
                Ok(_) => exists|request: Request, answer: Result<u16, reqwest::Error>|
                    is_request_for(request, *self, msg@, sent_at@) && call_ensures(
                        transport,
                        (request,),
                        answer,
                    ) && is_outcome_of(answer, sent),
                Err(error) => is_refusal(error, sent),
            },
    {
        match self.request(msg, sent_at) {
            Ok(request) => {
                let ghost handed = request;
                let answer = transport(request);
                let ghost reported = answer;
                let sent = RudderAnalytics::outcome(answer);
                assert(is_request_for(handed, *self, msg@, sent_at@) && call_ensures(
                    transport,
                    (handed,),
                    reported,
                ) && is_outcome_of(reported, sent));
                sent
            },
            Err(refusal) => Err(refusal),
        }
    }
}

} // verus!
