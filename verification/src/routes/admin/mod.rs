//! The handlers of the operator's pages.

pub mod newsletter;
pub mod password;

pub use newsletter::publish_newsletter;
pub use password::change_password;
