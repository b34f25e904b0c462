//! Publishing a newsletter issue.

pub mod post;

pub use post::publish_newsletter;
pub use post::FormData;
