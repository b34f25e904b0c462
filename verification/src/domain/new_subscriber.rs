//! A subscriber as signed up: a valid address and a valid name.

use crate::domain::subscriber_email::SubscriberEmail;
use crate::domain::subscriber_name::SubscriberName;
use vstd::prelude::*;

verus! {

/// Someone who asked to be subscribed.
#[derive(Debug)]
pub struct NewSubscriber {
    pub email: SubscriberEmail,
    pub name: SubscriberName,
}

impl NewSubscriber {
    /// The subscriber with this address and this name.
    pub fn new(email: SubscriberEmail, name: SubscriberName) -> (res: NewSubscriber)
        ensures
            res.email == email,
            res.name == name,
    {
        NewSubscriber { email, name }
    }
}

} // verus!
