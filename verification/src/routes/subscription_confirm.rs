//! Confirming a subscription with the token from the confirmation email.

use crate::domain::subscription_token::SubscriptionToken;
use crate::domain::subscription_token::invalid_token_message;
use crate::domain::subscription_token::is_valid_token;
use crate::storage::strings_view;
use crate::util::ErrorReport;
use crate::util::error_chain_fmt;
use crate::util::error_chain_text;
use vstd::prelude::*;

verus! {

/// The status code of a response to a request that cannot be served as
/// it stands.
pub const BAD_REQUEST: u16 = 400;

/// The status code of a response to a token that nobody was given.
pub const UNAUTHORIZED: u16 = 401;

/// The status code of a response to a failure of the service.
pub const INTERNAL_SERVER_ERROR: u16 = 500;

/// The parameters of a confirmation request.
#[derive(Debug, PartialEq, Eq)]
pub struct Parameters {
    pub subscription_token: String,
}

/// Why a confirmation failed.
#[derive(Debug, PartialEq, Eq)]
pub enum SubscriptionConfirmError {
    /// The token has not the form of a token; the text says so.
    Validation(String),
    /// No subscriber was given this token.
    UnauthorizedToken,
    /// Something else went wrong; the report is the error itself.
    Unexpected(ErrorReport),
}

impl SubscriptionConfirmError {
    /// What the error says of itself.
    pub open spec fn message_view(self) -> Seq<char> {
        match self {
            SubscriptionConfirmError::Validation(message) => message@,
            SubscriptionConfirmError::UnauthorizedToken => "Failed to confirm subscription because of unauthorized token."@,
            SubscriptionConfirmError::Unexpected(report) => report.message@,
        }
    }

    /// What the errors beneath it say, the immediate cause first.
    pub open spec fn causes_view(self) -> Seq<Seq<char>> {
        match self {
            SubscriptionConfirmError::Unexpected(report) => strings_view(report.causes@),
            _ => Seq::empty(),
        }
    }

    /// The status code that the error is answered with: 400 for a token
    /// of the wrong form, 401 for a token that nobody was given, 500 for
    /// a failure of the service.
    pub fn status_code(&self) -> (res: u16)
        ensures
            res == match *self {
                SubscriptionConfirmError::Validation(_) => BAD_REQUEST,
                SubscriptionConfirmError::Unexpected(_) => INTERNAL_SERVER_ERROR,
                SubscriptionConfirmError::UnauthorizedToken => UNAUTHORIZED,
            },
    {
        match self {
            SubscriptionConfirmError::Validation(_) => BAD_REQUEST,
            SubscriptionConfirmError::Unexpected(_) => INTERNAL_SERVER_ERROR,
            SubscriptionConfirmError::UnauthorizedToken => UNAUTHORIZED,
        }
    }

    /// What the error says of itself.
    pub fn message(&self) -> (res: String)
        ensures
            res@ == self.message_view(),
    {
        match self {
            SubscriptionConfirmError::Validation(message) => message.clone(),
            SubscriptionConfirmError::UnauthorizedToken => "Failed to confirm subscription because of unauthorized token.".to_string(),
            SubscriptionConfirmError::Unexpected(report) => report.message.clone(),
        }
    }

    /// The error with the chain of its causes, as [`error_chain_fmt`]
    /// renders it.
    pub fn debug_text(&self) -> (res: String)
        ensures
            res@ == error_chain_text(self.message_view(), self.causes_view()),
    {
        match self {
            SubscriptionConfirmError::Unexpected(report) => error_chain_fmt(
                report.message.as_str(),
                &report.causes,
            ),
            _ => {
                let none: Vec<String> = Vec::new();
                assert(strings_view(none@) =~= Seq::empty());
                error_chain_fmt(self.message().as_str(), &none)
            },
        }
    }
}

/// The token of a confirmation request, where it has the form of one.
pub fn token_of(parameters: &Parameters) -> (res: Result<
    SubscriptionToken,
    SubscriptionConfirmError,
>)
    ensures
        match res {
            Ok(token) => is_valid_token(parameters.subscription_token@) && token@
                == parameters.subscription_token@,
            Err(e) => !is_valid_token(parameters.subscription_token@) && (
            e matches SubscriptionConfirmError::Validation(message) && message@
                == invalid_token_message(parameters.subscription_token@)),
        },
{
    match SubscriptionToken::parse(parameters.subscription_token.as_str()) {
        Ok(token) => Ok(token),
        Err(message) => Err(SubscriptionConfirmError::Validation(message)),
    }
}

/// The subscriber to confirm, where the token was given to one:
/// `found` is what the store holds for the token.
pub fn subscriber_to_confirm(found: Option<u128>) -> (res: Result<u128, SubscriptionConfirmError>)
    ensures
        match found {
            Some(subscriber_id) => res == Ok::<u128, SubscriptionConfirmError>(subscriber_id),
            None => res == Err::<u128, SubscriptionConfirmError>(
                SubscriptionConfirmError::UnauthorizedToken,
            ),
        },
{
    match found {
        None => Err(SubscriptionConfirmError::UnauthorizedToken),
        Some(subscriber_id) => Ok(subscriber_id),
    }
}

} // verus!
