//! Changing the operator's password.

pub mod post;

pub use post::change_password;
