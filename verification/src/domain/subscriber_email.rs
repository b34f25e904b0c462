//! Email addresses of subscribers.

use crate::trusted::email_is_valid;
use crate::trusted::validate_email;
use vstd::prelude::*;
use vstd::string::StringExecFns;

verus! {

/// What is said of a text that is no email address.
pub open spec fn invalid_email_message(s: Seq<char>) -> Seq<char> {
    s + " is not a valid subscriber email."@
}

/// An email address that the validator has accepted.
#[derive(Debug)]
pub struct SubscriberEmail(String);

impl View for SubscriberEmail {
    type V = Seq<char>;

    closed spec fn view(&self) -> Seq<char> {
        self.0@
    }
}

impl SubscriberEmail {
    #[verifier::type_invariant]
    spec fn well_formed(self) -> bool {
        email_is_valid(self.0@)
    }

    /// Accepts `s` unchanged where it is a valid email address, and
    /// otherwise says that it is not.
    pub fn parse(s: &str) -> (res: Result<SubscriberEmail, String>)
        ensures
            match res {
                Ok(email) => email_is_valid(s@) && email@ == s@,
                Err(message) => !email_is_valid(s@) && message@ == invalid_email_message(s@),
            },
    {
        if validate_email(s) {
            Ok(SubscriberEmail(s.to_string()))
        } else {
            Err(s.to_string().concat(" is not a valid subscriber email."))
        }
    }
}

impl AsRef<str> for SubscriberEmail {
    fn as_ref(&self) -> (res: &str)
        ensures
            res@ == self@,
            email_is_valid(self@),
    {
        proof {
            use_type_invariant(self);
        }
        self.0.as_str()
    }
}

} // verus!
