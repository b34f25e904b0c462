//! What the request handlers decide.

pub mod admin;
pub mod newsletter;
pub mod subscription_confirm;
pub mod subscriptions;
