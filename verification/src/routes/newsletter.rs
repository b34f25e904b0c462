//! Publishing over the API: who may publish, and to whom an issue goes.

use crate::authentication::AuthError;
use crate::authentication::Credentials;
use crate::domain::subscriber_email::SubscriberEmail;
use crate::domain::subscriber_email::invalid_email_message;
use crate::idempotency::response::EnvelopeView;
use crate::idempotency::response::HeaderPair;
use crate::idempotency::response::ResponseEnvelope;
use crate::storage::strings_view;
use crate::trusted::base64_decoded;
use crate::trusted::decode_base64;
use crate::trusted::email_is_valid;
use crate::trusted::text_from_utf8;
use crate::util::ErrorReport;
use crate::util::error_chain_fmt;
use crate::util::error_chain_text;
use vstd::prelude::*;
use vstd::string::StrSliceExecFns;
use vstd::string::StringExecFns;

verus! {

/// The status code of a response that asks for authentication.
pub const UNAUTHORIZED: u16 = 401;

/// The status code of a response to a failure of the service.
pub const INTERNAL_SERVER_ERROR: u16 = 500;

/// The body of a publish request.
#[derive(Debug, PartialEq, Eq)]
pub struct BodyData {
    pub title: String,
    pub content: Content,
}

/// The content of an issue in both of its forms.
#[derive(Debug, PartialEq, Eq)]
pub struct Content {
    pub html: String,
    pub text: String,
}

/// Why a publish request failed.
#[derive(Debug, PartialEq, Eq)]
pub enum PublishError {
    /// The caller could not be authenticated; the report says why.
    AuthError(ErrorReport),
    /// Something else went wrong; the report is the error itself.
    UnexpectedError(ErrorReport),
}

/// The header that asks the caller for basic authentication.
pub open spec fn challenge_view() -> (Seq<char>, Seq<u8>) {
    ("www-authenticate"@, vstd::utf8::encode_utf8("Basic realm=\"publish\""@))
}

impl PublishError {
    /// What the error says of itself.
    pub open spec fn message_view(self) -> Seq<char> {
        match self {
            PublishError::AuthError(_) => "Authentication failed."@,
            PublishError::UnexpectedError(report) => report.message@,
        }
    }

    /// What the errors beneath it say, the immediate cause first.
    pub open spec fn causes_view(self) -> Seq<Seq<char>> {
        match self {
            PublishError::AuthError(report) => report.chain(),
            PublishError::UnexpectedError(report) => strings_view(report.causes@),
        }
    }

    /// The status code that the error is answered with.
    pub open spec fn status_view(self) -> u16 {
        match self {
            PublishError::AuthError(_) => UNAUTHORIZED,
            PublishError::UnexpectedError(_) => INTERNAL_SERVER_ERROR,
        }
    }

    /// The status code that the error is answered with: 401 where the
    /// caller could not be authenticated, 500 otherwise.
    pub fn status_code(&self) -> (res: u16)
        ensures
            res == self.status_view(),
    {
        match self {
            PublishError::UnexpectedError(_) => INTERNAL_SERVER_ERROR,
            PublishError::AuthError(_) => UNAUTHORIZED,
        }
    }

    /// The response that the error is answered with: the status code, no
    /// body, and for a caller that could not be authenticated the header
    /// that asks for basic authentication.
    pub fn error_response(&self) -> (res: ResponseEnvelope)
        ensures
            res@ == (EnvelopeView {
                status: self.status_view(),
                headers: if self is AuthError {
                    seq![challenge_view()]
                } else {
                    Seq::empty()
                },
                body: Seq::empty(),
            }),
    {
        let mut headers: Vec<HeaderPair> = Vec::new();
        match self {
            PublishError::UnexpectedError(_) => {},
            PublishError::AuthError(_) => {
                headers.push(
                    HeaderPair {
                        name: "www-authenticate".to_string(),
                        value: "Basic realm=\"publish\"".as_bytes_vec(),
                    },
                );
            },
        }
        let res = ResponseEnvelope { status_code: self.status_code(), headers, body: Vec::new() };
        assert(res@.headers =~= if self is AuthError {
            seq![challenge_view()]
        } else {
            Seq::empty()
        });
        res
    }

    /// What the error says of itself.
    pub fn message(&self) -> (res: String)
        ensures
            res@ == self.message_view(),
    {
        match self {
            PublishError::AuthError(_) => "Authentication failed.".to_string(),
            PublishError::UnexpectedError(report) => report.message.clone(),
        }
    }

    /// The error with the chain of its causes, as [`error_chain_fmt`]
    /// renders it.
    pub fn debug_text(&self) -> (res: String)
        ensures
            res@ == error_chain_text(self.message_view(), self.causes_view()),
    {
        match self {
            PublishError::AuthError(report) => {
                let causes = report.to_chain();
                error_chain_fmt("Authentication failed.", &causes)
            },
            PublishError::UnexpectedError(report) => error_chain_fmt(
                report.message.as_str(),
                &report.causes,
            ),
        }
    }
}

/// The publish error that a failed authentication amounts to.
pub fn publish_error_of(e: AuthError) -> (res: PublishError)
    ensures
        match e {
            AuthError::InvalidCredentials(report) => res == PublishError::AuthError(report),
            AuthError::UnexpectedError(report) => res == PublishError::UnexpectedError(report),
        },
{
    match e {
        AuthError::InvalidCredentials(report) => PublishError::AuthError(report),
        AuthError::UnexpectedError(report) => PublishError::UnexpectedError(report),
    }
}

/// The `Authorization` header of a request, as far as it can be read.
#[derive(Debug, PartialEq, Eq)]
pub enum AuthorizationHeader {
    /// The request has no such header.
    Missing,
    /// The header's value is no text.
    Unreadable,
    /// The header's value.
    Text(String),
}

/// Why a request carries no usable credentials.
#[derive(Clone, Copy, Debug, PartialEq, Eq, Structural)]
pub enum CredentialsError {
    /// The `Authorization` header is missing.
    MissingHeader,
    /// The `Authorization` header is no text.
    UnreadableHeader,
    /// The header does not begin with `Basic `.
    NotBasic,
    /// What follows `Basic ` is no base64 text.
    NotBase64,
    /// The decoded credentials are not UTF-8.
    NotUtf8,
    /// The decoded credentials hold no colon, hence no password.
    MissingPassword,
}

/// The scheme that a credentials header begins with.
pub open spec fn basic_scheme() -> Seq<char> {
    "Basic "@
}

/// Position `i` holds the first colon of `text`.
pub open spec fn is_first_colon(text: Seq<char>, i: int) -> bool {
    &&& 0 <= i < text.len()
    &&& text[i] == ':'
    &&& forall|j: int| 0 <= j < i ==> text[j] != ':'
}

/// User name and password in `text`: what stands before the first colon
/// and what stands behind it. `None` where `text` holds no colon.
pub open spec fn split_credentials(text: Seq<char>) -> Option<(Seq<char>, Seq<char>)> {
    if exists|i: int| is_first_colon(text, i) {
        let i = choose|i: int| is_first_colon(text, i);
        Some((text.take(i), text.skip(i + 1)))
    } else {
        None
    }
}

/// The largest number of bytes of encoded credentials that are decoded;
/// longer ones count as no base64 text.
pub const MAX_ENCODED_LEN: usize = usize::MAX - 3;

/// User name and password that the value of a basic `Authorization`
/// header carries, or why it carries none.
pub open spec fn credentials_in(header: Seq<char>) -> Result<(Seq<char>, Seq<char>), CredentialsError> {
    if !basic_scheme().is_prefix_of(header) {
        Err(CredentialsError::NotBasic)
    } else if vstd::utf8::encode_utf8(header.skip(basic_scheme().len() as int)).len()
        > MAX_ENCODED_LEN {
        Err(CredentialsError::NotBase64)
    } else {
        match base64_decoded(header.skip(basic_scheme().len() as int)) {
            None => Err(CredentialsError::NotBase64),
            Some(bytes) => if !vstd::utf8::valid_utf8(bytes) {
                Err(CredentialsError::NotUtf8)
            } else {
                match split_credentials(vstd::utf8::decode_utf8(bytes)) {
                    None => Err(CredentialsError::MissingPassword),
                    Some(pair) => Ok(pair),
                }
            },
        }
    }
}

impl CredentialsError {
    /// The fault in words.
    pub fn message(&self) -> (res: String)
        ensures
            res@ == match *self {
                CredentialsError::MissingHeader => "The 'Authorization' header was missing"@,
                CredentialsError::UnreadableHeader => "The 'Authorization' header was not a valid UTF8 string."@,
                CredentialsError::NotBasic => "The authorization scheme was not 'Basic'."@,
                CredentialsError::NotBase64 => "Failed to base64-decode 'Basic' credentials."@,
                CredentialsError::NotUtf8 => "The decoded credential string is not valid UTF8."@,
                CredentialsError::MissingPassword => "A password must be provided in 'Basic' auth."@,
            },
    {
        match self {
            CredentialsError::MissingHeader => "The 'Authorization' header was missing".to_string(),
            CredentialsError::UnreadableHeader => "The 'Authorization' header was not a valid UTF8 string.".to_string(),
            CredentialsError::NotBasic => "The authorization scheme was not 'Basic'.".to_string(),
            CredentialsError::NotBase64 => "Failed to base64-decode 'Basic' credentials.".to_string(),
            CredentialsError::NotUtf8 => "The decoded credential string is not valid UTF8.".to_string(),
            CredentialsError::MissingPassword => "A password must be provided in 'Basic' auth.".to_string(),
        }
    }
}

/// Splits `text` at its first colon into user name and password.
pub fn split_at_colon(text: &str) -> (res: Option<Credentials>)
    ensures
        match res {
            Some(credentials) => split_credentials(text@) == Some(
                (credentials.username@, credentials.password@),
            ),
            None => split_credentials(text@) is None,
        },
{
    let n: usize = text.unicode_len();
    let mut i: usize = 0;
    while i < n
        invariant
            i <= n,
            n == text@.len(),
            forall|j: int| 0 <= j < i ==> text@[j] != ':',
        decreases n - i,
    {
        if text.get_char(i) == ':' {
            proof {
                assert(is_first_colon(text@, i as int));
                let c = choose|c: int| is_first_colon(text@, c);
                assert(c == i) by {
                    if c < i {
                        assert(text@[c] != ':');
                    } else if i < c {
                        assert(text@[i as int] == ':');
                    }
                }
                assert(text@.take(i as int) =~= text@.subrange(0, i as int));
                assert(text@.skip(i + 1) =~= text@.subrange(i + 1, n as int));
            }
            let username = text.substring_char(0, i).to_string();
            let password = text.substring_char(i + 1, n).to_string();
            return Some(Credentials { username, password });
        }
        i = i + 1;
    }
    proof {
        assert forall|c: int| !is_first_colon(text@, c) by {
            if 0 <= c < text@.len() {
                assert(text@[c] != ':');
            }
        }
    }
    None
}

/// Reads user name and password from the `Authorization` header of a
/// request: the header must be there and be text, begin with `Basic `,
/// and go on with the base64 encoding of a UTF-8 text that holds a colon.
/// What stands before the first colon is the user name, what stands
/// behind it the password.
pub fn basic_authentication(header: &AuthorizationHeader) -> (res: Result<
    Credentials,
    CredentialsError,
>)
    ensures
        match *header {
            AuthorizationHeader::Missing => res == Err::<Credentials, CredentialsError>(
                CredentialsError::MissingHeader,
            ),
            AuthorizationHeader::Unreadable => res == Err::<Credentials, CredentialsError>(
                CredentialsError::UnreadableHeader,
            ),
            AuthorizationHeader::Text(value) => match res {
                Ok(credentials) => credentials_in(value@) == Ok::<
                    (Seq<char>, Seq<char>),
                    CredentialsError,
                >((credentials.username@, credentials.password@)),
                Err(e) => credentials_in(value@) == Err::<(Seq<char>, Seq<char>), CredentialsError>(
                    e,
                ),
            },
        },
{
    let header_value = match header {
        AuthorizationHeader::Missing => {
            return Err(CredentialsError::MissingHeader);
        },
        AuthorizationHeader::Unreadable => {
            return Err(CredentialsError::UnreadableHeader);
        },
        AuthorizationHeader::Text(value) => value.as_str(),
    };
    proof {
        reveal_strlit("Basic ");
    }
    let n: usize = header_value.unicode_len();
    if n < 6 {
        return Err(CredentialsError::NotBasic);
    }
    let scheme = header_value.substring_char(0, 6).to_string();
    if scheme != "Basic ".to_string() {
        assert(!(basic_scheme() =~= header_value@.subrange(0, 6)));
        return Err(CredentialsError::NotBasic);
    }
    assert(basic_scheme() =~= header_value@.subrange(0, 6));
    let base64encoded_segment = header_value.substring_char(6, n);
    assert(base64encoded_segment@ =~= header_value@.skip(6));
    if base64encoded_segment.as_bytes().len() > MAX_ENCODED_LEN {
        return Err(CredentialsError::NotBase64);
    }
    let decoded_bytes = match decode_base64(base64encoded_segment) {
        None => {
            return Err(CredentialsError::NotBase64);
        },
        Some(bytes) => bytes,
    };
    let decoded_credentials = match text_from_utf8(decoded_bytes) {
        None => {
            return Err(CredentialsError::NotUtf8);
        },
        Some(text) => text,
    };
    match split_at_colon(decoded_credentials.as_str()) {
        None => Err(CredentialsError::MissingPassword),
        Some(credentials) => Ok(credentials),
    }
}

/// A subscriber whose subscription is confirmed and whose stored address
/// is a valid email address.
#[derive(Debug)]
pub struct ConfirmedSubscriber {
    pub email: SubscriberEmail,
}

/// Tells, for each stored address of a confirmed subscriber, whether it
/// is a valid email address: the subscriber where it is, and what is
/// wrong with the address where it is not. Nothing is left out, and the
/// order is kept.
pub fn get_confirmed_subscribers(stored: &Vec<String>) -> (res: Vec<
    Result<ConfirmedSubscriber, String>,
>)
    ensures
        res@.len() == stored@.len(),
        forall|i: int|
            0 <= i < res@.len() ==> match #[trigger] res@[i] {
                Ok(subscriber) => email_is_valid(stored@[i]@) && subscriber.email@ == stored@[i]@,
                Err(reason) => !email_is_valid(stored@[i]@) && reason@ == invalid_email_message(
                    stored@[i]@,
                ),
            },
{
    let mut res: Vec<Result<ConfirmedSubscriber, String>> = Vec::new();
    let mut i: usize = 0;
    while i < stored.len()
        invariant
            i <= stored@.len(),
            res@.len() == i,
            forall|j: int|
                0 <= j < i ==> match #[trigger] res@[j] {
                    Ok(subscriber) => email_is_valid(stored@[j]@) && subscriber.email@
                        == stored@[j]@,
                    Err(reason) => !email_is_valid(stored@[j]@) && reason@
                        == invalid_email_message(stored@[j]@),
                },
        decreases stored@.len() - i,
    {
        let entry = match SubscriberEmail::parse(stored[i].as_str()) {
            Ok(email) => Ok(ConfirmedSubscriber { email }),
            Err(error) => Err(error),
        };
        res.push(entry);
        i = i + 1;
    }
    res
}

/// The position of the first subscriber at or behind `from` whose
/// address is valid: the next one to send to. Subscribers with an invalid
/// address are passed over.
pub fn next_recipient(subscribers: &Vec<Result<ConfirmedSubscriber, String>>, from: usize) -> (res:
    Option<usize>)
    ensures
        match res {
            Some(i) => from <= i < subscribers@.len() && subscribers@[i as int] is Ok && forall|
                j: int,
            |
                from <= j < i ==> (#[trigger] subscribers@[j]) is Err,
            None => forall|j: int|
                from <= j < subscribers@.len() ==> (#[trigger] subscribers@[j]) is Err,
        },
{
    let mut i: usize = from;
    while i < subscribers.len()
        invariant
            from <= i,
            forall|j: int| from <= j < i && j < subscribers@.len() ==> (#[trigger] subscribers@[j]) is Err,
        decreases subscribers@.len() - i,
    {
        if subscribers[i].is_ok() {
            return Some(i);
        }
        i = i + 1;
    }
    None
}

/// What is reported when an issue could not be sent to `email`: the
/// failure of the service with the cause beneath it.
pub fn delivery_failed(email: &SubscriberEmail, cause: ErrorReport) -> (res: PublishError)
    ensures
        res matches PublishError::UnexpectedError(report) && report.message@
            == "Failed to send newsletter issue to "@ + email@ && strings_view(report.causes@)
            == cause.chain(),
{
    let message = "Failed to send newsletter issue to ".to_string().concat(email.as_ref());
    let causes = cause.to_chain();
    PublishError::UnexpectedError(ErrorReport { message, causes })
}

} // verus!
