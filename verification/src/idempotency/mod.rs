//! Deduplication of publish requests by a client-supplied idempotency key.

pub mod key;
pub mod persistence;
pub mod records;
pub mod response;

pub use key::IdempotencyKey;
pub use key::KeyError;
pub use persistence::get_saved_response;
pub use persistence::next_action;
pub use persistence::save_response;
pub use persistence::try_processing;
pub use persistence::NextAction;
pub use records::AttachError;
pub use records::IdempotencyStore;
pub use records::RecordState;
pub use response::saved_response_of;
pub use response::see_other;
pub use response::CorruptRecord;
pub use response::EnvelopeView;
pub use response::HeaderPair;
pub use response::ResponseEnvelope;
