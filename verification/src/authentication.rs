//! Who an authenticated request acts for, and what a caller presents to
//! be authenticated.

use crate::util::ErrorReport;
use vstd::prelude::*;

verus! {

/// The identifier of the operator on whose behalf a request is made.
#[derive(Clone, Copy, Debug, PartialEq, Eq, Hash, Structural)]
pub struct UserId(pub u128);

/// A user name and the password presented with it.
#[derive(Debug, PartialEq, Eq)]
pub struct Credentials {
    pub username: String,
    pub password: String,
}

/// Why credentials were not accepted.
#[derive(Debug, PartialEq, Eq)]
pub enum AuthError {
    /// The user is unknown or the password is wrong.
    InvalidCredentials(ErrorReport),
    /// Something else went wrong while the credentials were examined.
    UnexpectedError(ErrorReport),
}

} // verus!
