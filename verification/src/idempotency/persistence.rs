//! Deduplication of requests: admits a publish request once per operator
//! and key, and answers every repetition with the saved response.

use crate::authentication::UserId;
use crate::error::StoreError;
use crate::idempotency::key::IdempotencyKey;
use crate::idempotency::records::RecordState;
use crate::idempotency::response::ResponseEnvelope;
use crate::model::Admission;
use crate::model::TransactionView;
use crate::storage::Database;
use crate::storage::Transaction;
use vstd::prelude::*;

verus! {

/// What a request has to do once the store has looked up its key.
#[derive(Debug)]
pub enum NextAction {
    /// The request is the first under its key: it does the work inside
    /// the transaction and saves its response with [`save_response`].
    StartProcessing(Transaction),
    /// The work was done before: the request is answered with the
    /// response that was saved then.
    ReturnSavedResponse(ResponseEnvelope),
}

/// Decides from what the store answered: `n_inserted_rows` is the number
/// of reservations that the attempt to insert one created, `saved` the
/// response found on record where none was created.
pub fn next_action(n_inserted_rows: u64, saved: Option<ResponseEnvelope>) -> (res: Result<
    NextAction,
    StoreError,
>)
    ensures
        match res {
            Ok(NextAction::StartProcessing(txn)) => n_inserted_rows > 0 && txn.wf() && txn@
                == TransactionView::empty(),
            Ok(NextAction::ReturnSavedResponse(response)) => n_inserted_rows == 0 && saved
                == Some(response),
            Err(e) => n_inserted_rows == 0 && saved is None && e == StoreError::ReservationPending,
        },
{
    if n_inserted_rows > 0 {
        Ok(NextAction::StartProcessing(Transaction::new()))
    } else {
        match saved {
            Some(response) => Ok(NextAction::ReturnSavedResponse(response)),
            None => Err(StoreError::ReservationPending),
        }
    }
}

/// The response that was saved for `user_id` and `key`, if the request
/// under that key has completed.
pub fn get_saved_response(db: &Database, key: &IdempotencyKey, user_id: UserId) -> (res: Option<
    ResponseEnvelope,
>)
    requires
        db.wf(),
    ensures
        match db@.admission(user_id.0, key@) {
            Admission::Replay(saved) => res matches Some(response) && response@ == saved,
            _ => res is None,
        },
{
    match db.record_state(user_id, key) {
        RecordState::Completed(response) => Some(response),
        _ => None,
    }
}

/// Decides whether a request of `user_id` under `key` is admitted.
///
/// Where no record exists, a reservation is recorded and the request
/// starts processing with an empty transaction. Where the record carries
/// a response, that response is returned and nothing changes. Where
/// another request holds the reservation and has not completed, the call
/// fails with [`StoreError::ReservationPending`] and nothing changes: the
/// caller has to wait for the holder.
pub fn try_processing(db: &mut Database, key: &IdempotencyKey, user_id: UserId) -> (res: Result<
    NextAction,
    StoreError,
>)
    requires
        old(db).wf(),
    ensures
        final(db).wf(),
        match old(db)@.admission(user_id.0, key@) {
            Admission::Admit => res matches Ok(NextAction::StartProcessing(txn)) && txn.wf()
                && txn@ == TransactionView::empty() && final(db)@ == old(db)@.reserve(
                user_id.0,
                key@,
            ),
            Admission::Replay(saved) => res matches Ok(NextAction::ReturnSavedResponse(response))
                && response@ == saved && final(db)@ == old(db)@,
            Admission::Pending => res matches Err(e) && e == StoreError::ReservationPending
                && final(db)@ == old(db)@,
        },
{
    if db.reserve(user_id, key) {
        next_action(1, None)
    } else {
        let saved = get_saved_response(db, key, user_id);
        next_action(0, saved)
    }
}

/// Commits the work of a request and saves its response, all at once:
/// the issues and tasks written in `txn` become durable together with
/// `response`, which every later request under the same key is answered
/// with. Where the reservation of `user_id` and `key` is missing or
/// completed, or an issue of `txn` exists already, nothing is written.
/// Returns the response.
pub fn save_response(
    db: &mut Database,
    txn: Transaction,
    key: &IdempotencyKey,
    user_id: UserId,
    response: ResponseEnvelope,
) -> (res: Result<ResponseEnvelope, StoreError>)
    requires
        old(db).wf(),
        txn.wf(),
    ensures
        final(db).wf(),
        match res {
            Ok(saved) => old(db)@.commit_error(user_id.0, key@, txn@) is None && final(db)@
                == old(db)@.commit(user_id.0, key@, txn@, response@) && saved@ == response@,
            Err(e) => old(db)@.commit_error(user_id.0, key@, txn@) == Some(e) && final(db)@
                == old(db)@,
        },
{
    let answer = response.duplicate();
    match db.commit(user_id, key, txn, response) {
        Ok(()) => Ok(answer),
        Err(e) => Err(e),
    }
}

} // verus!
