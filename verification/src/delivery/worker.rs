//! The delivery worker: takes one task at a time from the queue, has the
//! email sent, and removes or keeps the task according to the outcome.

use crate::delivery::task::DeliveryTask;
use crate::domain::subscriber_email::SubscriberEmail;
use crate::domain::subscriber_email::invalid_email_message;
use crate::error::StoreError;
use crate::issues::NewsletterIssue;
use crate::model::DatabaseView;
use crate::model::DeliveryOutcome;
use crate::model::has_issue;
use crate::model::has_pending;
use crate::model::is_in_flight;
use crate::model::is_in_flight_at;
use crate::model::lemma_claim_wf;
use crate::storage::Database;
use crate::trusted::email_is_valid;
use vstd::prelude::*;

verus! {

/// How one pass of the worker ended.
#[derive(Clone, Copy, Debug, PartialEq, Eq, Structural)]
pub enum ExecutionOutcome {
    /// No task was pending: the worker waits before it looks again.
    EmptyQueue,
    /// The email was delivered and the task removed.
    TaskCompleted,
    /// The recipient can never be delivered to: the task was removed.
    TaskSkipped,
    /// Delivery failed for now: the task stays in the queue.
    TaskDeferred,
}

/// A stored address, told apart once when it is read.
#[derive(Debug)]
pub enum Recipient {
    /// The address is a valid email address.
    Valid(SubscriberEmail),
    /// The address is not valid; the text says so.
    Invalid(String),
}

/// A task that a worker holds, with the issue to deliver.
#[derive(Debug)]
pub struct Delivery {
    pub task: DeliveryTask,
    pub issue: NewsletterIssue,
}

/// How a pass ends that settled a task with `outcome`.
pub open spec fn outcome_of(outcome: DeliveryOutcome) -> ExecutionOutcome {
    match outcome {
        DeliveryOutcome::Delivered => ExecutionOutcome::TaskCompleted,
        DeliveryOutcome::PermanentFailure => ExecutionOutcome::TaskSkipped,
        DeliveryOutcome::TransientFailure => ExecutionOutcome::TaskDeferred,
    }
}

/// Whether a task leaves the queue after `outcome`: always, unless the
/// failure was transient.
pub fn removes_task(outcome: DeliveryOutcome) -> (res: bool)
    ensures
        res == (outcome != DeliveryOutcome::TransientFailure),
{
    match outcome {
        DeliveryOutcome::TransientFailure => false,
        _ => true,
    }
}

/// How a pass ends that settled a task with `outcome`.
pub fn execution_outcome(outcome: DeliveryOutcome) -> (res: ExecutionOutcome)
    ensures
        res == outcome_of(outcome),
{
    match outcome {
        DeliveryOutcome::Delivered => ExecutionOutcome::TaskCompleted,
        DeliveryOutcome::PermanentFailure => ExecutionOutcome::TaskSkipped,
        DeliveryOutcome::TransientFailure => ExecutionOutcome::TaskDeferred,
    }
}

/// Tells a stored address that is a valid email address from one that
/// is not.
pub fn classify_recipient(stored: &str) -> (res: Recipient)
    ensures
        match res {
            Recipient::Valid(email) => email_is_valid(stored@) && email@ == stored@,
            Recipient::Invalid(reason) => !email_is_valid(stored@) && reason@
                == invalid_email_message(stored@),
        },
{
    match SubscriberEmail::parse(stored) {
        Ok(email) => Recipient::Valid(email),
        Err(reason) => Recipient::Invalid(reason),
    }
}

/// Takes the first task that no worker holds, together with its issue,
/// and marks the task as in flight.
pub fn dequeue_task(db: &mut Database) -> (res: Option<Delivery>)
    requires
        old(db).wf(),
    ensures
        final(db).wf(),
        match res {
            Some(delivery) => has_pending(old(db)@.queue) && final(db)@ == old(db)@.claim()
                && delivery.task@ == old(db)@.queue[old(db)@.next_pending()].task
                && delivery.issue@.id == delivery.task@.issue_id && old(db)@.issues.contains(
                delivery.issue@,
            ) && is_in_flight(final(db)@.queue, delivery.task@),
            None => !has_pending(old(db)@.queue) && final(db)@ == old(db)@,
        },
{
    let ghost before = db@;
    proof {
        db.lemma_wf();
    }
    match db.claim_next() {
        None => None,
        Some(task) => {
            proof {
                db.lemma_wf();
                lemma_claim_wf(before);
                let i = before.next_pending();
                assert(is_in_flight_at(db@.queue, task@, i));
                assert(has_issue(before.issues, before.queue[i].task.issue_id));
            }
            match db.issue(task.newsletter_issue_id) {
                Some(issue) => Some(Delivery { task, issue }),
                None => {
                    proof {
                        assert(false);
                    }
                    None
                },
            }
        },
    }
}

/// Ends the delivery that a worker holds: the task is removed unless the
/// failure was transient, in which case it is pending again. A worker
/// that has to give its attempt up ends it as after a transient failure.
/// Fails, changing nothing, where no worker holds the task.
pub fn complete_task(db: &mut Database, delivery: &Delivery, outcome: DeliveryOutcome) -> (res:
    Result<ExecutionOutcome, StoreError>)
    requires
        old(db).wf(),
    ensures
        final(db).wf(),
        match res {
            Ok(ended) => is_in_flight(old(db)@.queue, delivery.task@) && final(db)@ == old(db)@.settle(delivery.task@, outcome) && ended == outcome_of(outcome),
            Err(e) => e == StoreError::UnknownTask && !is_in_flight(
                old(db)@.queue,
                delivery.task@,
            ) && final(db)@ == old(db)@,
        },
{
    match db.settle(&delivery.task, outcome) {
        Ok(()) => Ok(execution_outcome(outcome)),
        Err(e) => Err(e),
    }
}

/// One pass of the worker, where `reply` is what the email gateway
/// answers if it is asked to send.
///
/// Where no task is pending, nothing happens. Otherwise the first pending
/// task is taken. A stored address that is no valid email address counts
/// as a permanent failure, and the gateway is not asked. After a delivery
/// or a permanent failure the task is removed; after a transient failure
/// it stays, pending, for a later pass.
pub fn try_execute_task(db: &mut Database, reply: DeliveryOutcome) -> (res: ExecutionOutcome)
    requires
        old(db).wf(),
    ensures
        final(db).wf(),
        final(db)@ == old(db)@.deliver(reply),
        res == if !has_pending(old(db)@.queue) {
            ExecutionOutcome::EmptyQueue
        } else {
            outcome_of(
                DatabaseView::outcome_for(old(db)@.queue[old(db)@.next_pending()].task, reply),
            )
        },
{
    let delivery = match dequeue_task(db) {
        None => {
            return ExecutionOutcome::EmptyQueue;
        },
        Some(delivery) => delivery,
    };
    let outcome = match classify_recipient(delivery.task.subscriber_email.as_str()) {
        Recipient::Valid(_) => reply,
        Recipient::Invalid(_) => DeliveryOutcome::PermanentFailure,
    };
    match complete_task(db, &delivery, outcome) {
        Ok(ended) => ended,
        Err(_) => {
            proof {
                assert(false);
            }
            ExecutionOutcome::EmptyQueue
        },
    }
}

} // verus!
