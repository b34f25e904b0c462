//! The rules for a change of password and what the operator is told.

use vstd::prelude::*;

verus! {

/// The smallest length of a new password, in bytes.
pub const MIN_PASSWORD_LEN: usize = 12;

/// The largest length of a new password, in bytes.
pub const MAX_PASSWORD_LEN: usize = 127;

/// The fields of the change-password form.
#[derive(Debug, PartialEq, Eq)]
pub struct FormData {
    pub current_password: String,
    pub new_password: String,
    pub confirm_new_password: String,
}

/// How a request to change the password ends.
#[derive(Clone, Copy, Debug, PartialEq, Eq, Structural)]
pub enum PasswordChange {
    /// The new password and its confirmation differ.
    Mismatch,
    /// The new password is too short or too long.
    BadLength,
    /// The current password is wrong.
    WrongPassword,
    /// The password is to be changed.
    Accepted,
}

/// What is wrong with the new password of a form, if anything: the
/// confirmation is examined first, the length second.
pub open spec fn new_password_fault(form: FormData) -> Option<PasswordChange> {
    if form.new_password@ != form.confirm_new_password@ {
        Some(PasswordChange::Mismatch)
    } else if !(MIN_PASSWORD_LEN <= vstd::utf8::encode_utf8(form.new_password@).len()
        <= MAX_PASSWORD_LEN) {
        Some(PasswordChange::BadLength)
    } else {
        None
    }
}

/// Examines the new password of a form before the current password is
/// looked at: it must equal its confirmation and have between 12 and 127
/// bytes.
pub fn check_new_password(form: &FormData) -> (res: Option<PasswordChange>)
    ensures
        res == new_password_fault(*form),
{
    if form.new_password != form.confirm_new_password {
        return Some(PasswordChange::Mismatch);
    }
    let len: usize = form.new_password.as_str().as_bytes().len();
    if len < MIN_PASSWORD_LEN || len > MAX_PASSWORD_LEN {
        return Some(PasswordChange::BadLength);
    }
    None
}

/// How a request to change the password ends, where `current_is_valid`
/// says whether the current password of the form was found to be right.
/// A fault of the new password is reported whether or not the current
/// password is right.
pub fn change_password(form: &FormData, current_is_valid: bool) -> (res: PasswordChange)
    ensures
        res == match new_password_fault(*form) {
            Some(fault) => fault,
            None => if current_is_valid {
                PasswordChange::Accepted
            } else {
                PasswordChange::WrongPassword
            },
        },
{
    match check_new_password(form) {
        Some(fault) => fault,
        None => if current_is_valid {
            PasswordChange::Accepted
        } else {
            PasswordChange::WrongPassword
        },
    }
}

impl PasswordChange {
    /// What the operator is told.
    pub fn message(&self) -> (res: String)
        ensures
            res@ == match *self {
                PasswordChange::Mismatch => "New password does not match with confirmation password."@,
                PasswordChange::BadLength => "New password must at least 12 characters long but shorter than 128 characters."@,
                PasswordChange::WrongPassword => "Current password is incorrect."@,
                PasswordChange::Accepted => "Password updated successfully. Please login to continue."@,
            },
    {
        match self {
            PasswordChange::Mismatch => "New password does not match with confirmation password.".to_string(),
            PasswordChange::BadLength => "New password must at least 12 characters long but shorter than 128 characters.".to_string(),
            PasswordChange::WrongPassword => "Current password is incorrect.".to_string(),
            PasswordChange::Accepted => "Password updated successfully. Please login to continue.".to_string(),
        }
    }

    /// Where the operator is sent: to the login page after the password
    /// was changed, back to the form otherwise.
    pub fn redirect(&self) -> (res: String)
        ensures
            res@ == match *self {
                PasswordChange::Accepted => "/login"@,
                _ => "/admin/password"@,
            },
    {
        match self {
            PasswordChange::Accepted => "/login".to_string(),
            _ => "/admin/password".to_string(),
        }
    }

    /// Whether the operator is told of a failure.
    pub fn is_error(&self) -> (res: bool)
        ensures
            res == (*self != PasswordChange::Accepted),
    {
        match self {
            PasswordChange::Accepted => false,
            _ => true,
        }
    }
}

} // verus!
