//! Signing up: validating the form and deciding what follows.

use crate::domain::new_subscriber::NewSubscriber;
use crate::domain::subscriber_email::SubscriberEmail;
use crate::domain::subscriber_email::invalid_email_message;
use crate::domain::subscriber_name::SubscriberName;
use crate::domain::subscriber_name::invalid_name_message;
use crate::domain::subscriber_name::is_valid_name;
use crate::domain::subscription_token::SubscriptionToken;
use crate::domain::subscription_token::TOKEN_LEN;
use crate::idempotency::response::EnvelopeView;
use crate::idempotency::response::HeaderPair;
use crate::idempotency::response::ResponseEnvelope;
use crate::storage::strings_view;
use crate::trusted::email_is_valid;
use crate::trusted::is_ascii_alphanumeric;
use crate::trusted::join_url;
use crate::trusted::url_joined;
use crate::util::ErrorReport;
use crate::util::error_chain_fmt;
use crate::util::error_chain_text;
use vstd::prelude::*;
use vstd::string::StrSliceExecFns;
use vstd::string::StringExecFns;

verus! {

/// The status code of a response to a request that cannot be served as
/// it stands.
pub const BAD_REQUEST: u16 = 400;

/// The status code of a response to a failure of the service.
pub const INTERNAL_SERVER_ERROR: u16 = 500;

/// The fields of the sign-up form, as they were sent.
#[derive(Debug, PartialEq, Eq)]
pub struct FormData {
    pub name: String,
    pub email: String,
}

/// What is wrong with a sign-up form, if anything: the address is
/// examined first, the name second.
pub open spec fn form_fault(form: FormData) -> Option<Seq<char>> {
    if !email_is_valid(form.email@) {
        Some(invalid_email_message(form.email@))
    } else if !is_valid_name(form.name@) {
        Some(invalid_name_message(form.name@))
    } else {
        None
    }
}

impl TryFrom<FormData> for NewSubscriber {
    type Error = String;

    /// The subscriber that a sign-up form describes, or what is wrong
    /// with the form.
    fn try_from(value: FormData) -> (res: Result<NewSubscriber, String>)
        ensures
            match res {
                Ok(subscriber) => form_fault(value) is None && subscriber.email@ == value.email@
                    && subscriber.name@ == value.name@,
                Err(message) => form_fault(value) == Some(message@),
            },
    {
        let email = match SubscriberEmail::parse(value.email.as_str()) {
            Ok(email) => email,
            Err(message) => {
                return Err(message);
            },
        };
        let name = match SubscriberName::parse(value.name.as_str()) {
            Ok(name) => name,
            Err(message) => {
                return Err(message);
            },
        };
        Ok(NewSubscriber { email, name })
    }
}

impl vstd::std_specs::convert::TryFromSpecImpl<FormData> for NewSubscriber {
    open spec fn obeys_try_from_spec() -> bool {
        false
    }

    closed spec fn try_from_spec(value: FormData) -> Result<NewSubscriber, String> {
        arbitrary()
    }
}

/// Why a sign-up failed.
#[derive(Debug, PartialEq, Eq)]
pub enum SubscribeError {
    /// The form is not valid; the text says what is wrong.
    ValidationError(String),
    /// The subscriber is confirmed already.
    AlreadyConfirmedError,
    /// Something else went wrong; the report is the error itself.
    UnexpectedError(ErrorReport),
}

/// The header that marks a body as plain text.
pub open spec fn plain_text_view() -> (Seq<char>, Seq<u8>) {
    ("content-type"@, vstd::utf8::encode_utf8("text/plain; charset=utf-8"@))
}

impl SubscribeError {
    /// What the error says of itself.
    pub open spec fn message_view(self) -> Seq<char> {
        match self {
            SubscribeError::ValidationError(message) => message@,
            SubscribeError::AlreadyConfirmedError => "Failed to subscribe as the subscriber is already confirmed."@,
            SubscribeError::UnexpectedError(report) => report.message@,
        }
    }

    /// What the errors beneath it say, the immediate cause first.
    pub open spec fn causes_view(self) -> Seq<Seq<char>> {
        match self {
            SubscribeError::UnexpectedError(report) => strings_view(report.causes@),
            _ => Seq::empty(),
        }
    }

    /// The status code that the error is answered with.
    pub open spec fn status_view(self) -> u16 {
        match self {
            SubscribeError::UnexpectedError(_) => INTERNAL_SERVER_ERROR,
            _ => BAD_REQUEST,
        }
    }

    /// The status code that the error is answered with: 500 for a failure
    /// of the service, 400 otherwise.
    pub fn status_code(&self) -> (res: u16)
        ensures
            res == self.status_view(),
    {
        match self {
            SubscribeError::ValidationError(_) | SubscribeError::AlreadyConfirmedError => BAD_REQUEST,
            SubscribeError::UnexpectedError(_) => INTERNAL_SERVER_ERROR,
        }
    }

    /// What the error says of itself.
    pub fn message(&self) -> (res: String)
        ensures
            res@ == self.message_view(),
    {
        match self {
            SubscribeError::ValidationError(message) => message.clone(),
            SubscribeError::AlreadyConfirmedError => "Failed to subscribe as the subscriber is already confirmed.".to_string(),
            SubscribeError::UnexpectedError(report) => report.message.clone(),
        }
    }

    /// The response that the error is answered with: for a failure of the
    /// service the status code alone, otherwise the status code and the
    /// error's message as plain text.
    pub fn error_response(&self) -> (res: ResponseEnvelope)
        ensures
            res@ == (if self is UnexpectedError {
                EnvelopeView {
                    status: INTERNAL_SERVER_ERROR,
                    headers: Seq::empty(),
                    body: Seq::empty(),
                }
            } else {
                EnvelopeView {
                    status: BAD_REQUEST,
                    headers: seq![plain_text_view()],
                    body: vstd::utf8::encode_utf8(self.message_view()),
                }
            }),
    {
        match self {
            SubscribeError::ValidationError(_) | SubscribeError::AlreadyConfirmedError => {
                let mut headers: Vec<HeaderPair> = Vec::new();
                headers.push(
                    HeaderPair {
                        name: "content-type".to_string(),
                        value: "text/plain; charset=utf-8".as_bytes_vec(),
                    },
                );
                let res = ResponseEnvelope {
                    status_code: self.status_code(),
                    headers,
                    body: self.message().as_str().as_bytes_vec(),
                };
                assert(res@.headers =~= seq![plain_text_view()]);
                res
            },
            SubscribeError::UnexpectedError(_) => {
                let res = ResponseEnvelope {
                    status_code: self.status_code(),
                    headers: Vec::new(),
                    body: Vec::new(),
                };
                assert(res@.headers =~= Seq::empty());
                res
            },
        }
    }

    /// The error with the chain of its causes, as [`error_chain_fmt`]
    /// renders it.
    pub fn debug_text(&self) -> (res: String)
        ensures
            res@ == error_chain_text(self.message_view(), self.causes_view()),
    {
        match self {
            SubscribeError::UnexpectedError(report) => error_chain_fmt(
                report.message.as_str(),
                &report.causes,
            ),
            _ => {
                let none: Vec<String> = Vec::new();
                assert(strings_view(none@) =~= Seq::empty());
                error_chain_fmt(self.message().as_str(), &none)
            },
        }
    }
}

/// What the store knows of a subscriber after the sign-up was recorded.
#[derive(Debug, PartialEq, Eq)]
pub struct SubscriberStatus {
    pub id: u128,
    pub status: String,
}

impl SubscriberStatus {
    /// Whether the subscription is confirmed.
    pub fn confirmed(&self) -> (res: bool)
        ensures
            res == (self.status@ == "confirmed"@),
    {
        self.status == "confirmed".to_string()
    }
}

/// Decides what follows the recording of a sign-up: a subscriber who is
/// confirmed already is turned away; everyone else gets a fresh token,
/// 25 ASCII letters and digits, whichever are drawn.
pub fn issue_token(subscriber_status: &SubscriberStatus) -> (res: Result<
    SubscriptionToken,
    SubscribeError,
>)
    ensures
        match res {
            Ok(token) => subscriber_status.status@ != "confirmed"@ && token@.len() == TOKEN_LEN
                && forall|i: int|
                0 <= i < token@.len() ==> is_ascii_alphanumeric(#[trigger] token@[i]),
            Err(e) => subscriber_status.status@ == "confirmed"@ && e
                == SubscribeError::AlreadyConfirmedError,
        },
{
    if subscriber_status.confirmed() {
        return Err(SubscribeError::AlreadyConfirmedError);
    }
    Ok(SubscriptionToken::new())
}

/// The path of the confirmation link for a token, relative to the base
/// address of the service.
pub open spec fn confirmation_path_view(token: Seq<char>) -> Seq<char> {
    "subscriptions/confirm?subscription_token="@ + token
}

/// The text of the confirmation email for a link.
pub open spec fn plain_body_view(link: Seq<char>) -> Seq<char> {
    "Welcome to our newsletter!\nVisit "@ + link + " to confirm your subscription."@
}

/// The path of the confirmation link for `subscription_token`, relative
/// to the base address of the service.
pub fn confirmation_path(subscription_token: &SubscriptionToken) -> (res: String)
    ensures
        res@ == confirmation_path_view(subscription_token@),
{
    "subscriptions/confirm?subscription_token=".to_string().concat(subscription_token.as_ref())
}

/// The text of the confirmation email that leads to `confirmation_link`.
pub fn plain_body(confirmation_link: &str) -> (res: String)
    ensures
        res@ == plain_body_view(confirmation_link@),
{
    "Welcome to our newsletter!\nVisit ".to_string().concat(confirmation_link).concat(
        " to confirm your subscription.",
    )
}

/// The confirmation email for one subscriber.
#[derive(Debug, PartialEq, Eq)]
pub struct ConfirmationEmail {
    /// The address that confirms the subscription.
    pub confirmation_link: String,
    /// The email as plain text.
    pub plain_body: String,
    /// The email as HTML.
    pub html_body: String,
}

/// Puts the confirmation email together from the link and from what the
/// template rendered, if it could be rendered: the plain text names the
/// link, and the HTML is the rendered template or, failing that, the
/// plain text.
pub fn assemble_confirmation_email(confirmation_link: String, rendered: Option<String>) -> (res:
    ConfirmationEmail)
    ensures
        res.confirmation_link@ == confirmation_link@,
        res.plain_body@ == plain_body_view(confirmation_link@),
        res.html_body@ == match rendered {
            Some(content) => content@,
            None => plain_body_view(confirmation_link@),
        },
{
    let plain_body = plain_body(confirmation_link.as_str());
    let html_body = html_body(rendered, plain_body.as_str());
    ConfirmationEmail { confirmation_link, plain_body, html_body }
}

/// The address that confirms the subscription of the subscriber who was
/// given `subscription_token`: the confirmation path resolved against
/// `base_url`. `None` where `base_url` is no address that the path can be
/// resolved against.
pub fn confirmation_link(base_url: &str, subscription_token: &SubscriptionToken) -> (res: Option<
    String,
>)
    ensures
        match url_joined(base_url@, confirmation_path_view(subscription_token@)) {
            None => res is None,
            Some(link) => res matches Some(text) && text@ == link,
        },
{
    let path = confirmation_path(subscription_token);
    join_url(base_url, path.as_str())
}

/// The HTML of the confirmation email: what the template rendered, or
/// the plain text where the template could not be rendered.
pub fn html_body(rendered: Option<String>, plain_body: &str) -> (res: String)
    ensures
        res@ == match rendered {
            Some(content) => content@,
            None => plain_body@,
        },
{
    match rendered {
        Some(content) => content,
        None => plain_body.to_string(),
    }
}

} // verus!
