//! What the storage layer can refuse.

use vstd::prelude::*;

verus! {

/// Why an operation on the store was refused. A refused operation leaves
/// the store as it was.
#[derive(Clone, Copy, Debug, PartialEq, Eq, Structural)]
pub enum StoreError {
    /// The key is reserved by a request that has not saved its response.
    ReservationPending,
    /// A response was to be saved, but no reservation exists for the key.
    ReservationMissing,
    /// A response was to be saved, but the record already carries one.
    ResponseAlreadySaved,
    /// An issue with this identifier exists already.
    DuplicateIssue,
    /// Delivery tasks were to be enqueued for an issue that the
    /// transaction has not inserted.
    UnknownIssue,
    /// A recipient occurs twice among the tasks of one issue.
    DuplicateRecipient,
    /// No task of this issue and recipient is being delivered.
    UnknownTask,
}

impl StoreError {
    /// The refusal in words.
    pub fn message(&self) -> (res: String)
        ensures
            res@ == match *self {
                StoreError::ReservationPending => "the idempotency key is reserved by a request that has not completed"@,
                StoreError::ReservationMissing => "no reservation exists for the idempotency key"@,
                StoreError::ResponseAlreadySaved => "a response is saved for the idempotency key already"@,
                StoreError::DuplicateIssue => "an issue with this identifier exists already"@,
                StoreError::UnknownIssue => "the issue was not inserted in this transaction"@,
                StoreError::DuplicateRecipient => "a recipient occurs twice among the tasks of one issue"@,
                StoreError::UnknownTask => "no such task is being delivered"@,
            },
    {
        match self {
            StoreError::ReservationPending => "the idempotency key is reserved by a request that has not completed".to_string(),
            StoreError::ReservationMissing => "no reservation exists for the idempotency key".to_string(),
            StoreError::ResponseAlreadySaved => "a response is saved for the idempotency key already".to_string(),
            StoreError::DuplicateIssue => "an issue with this identifier exists already".to_string(),
            StoreError::UnknownIssue => "the issue was not inserted in this transaction".to_string(),
            StoreError::DuplicateRecipient => "a recipient occurs twice among the tasks of one issue".to_string(),
            StoreError::UnknownTask => "no such task is being delivered".to_string(),
        }
    }
}

} // verus!
