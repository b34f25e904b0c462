//! What holds of the service as a whole, proved from the definitions of
//! its operations.

use crate::error::StoreError;
use crate::idempotency::key::is_valid_key;
use crate::idempotency::records::RecordId;
use crate::idempotency::response::EnvelopeView;
use crate::idempotency::response::see_other_view;
use crate::model::Admission;
use crate::model::DatabaseView;
use crate::model::DeliveryOutcome;
use crate::model::IssueView;
use crate::model::Operation;
use crate::model::QueuedView;
use crate::model::TaskView;
use crate::model::TransactionView;
use crate::model::as_pending;
use crate::model::count_for_issue;
use crate::model::has_issue;
use crate::model::has_pending;
use crate::model::is_in_flight;
use crate::model::is_in_flight_at;
use crate::model::is_next_pending;
use crate::model::is_queued;
use crate::model::lemma_claim_wf;
use crate::model::lemma_commit_wf;
use crate::model::lemma_in_flight_at;
use crate::model::lemma_reserve_wf;
use crate::model::lemma_settle_wf;
use crate::model::newsletter_path;
use crate::model::tasks_for;
use crate::trusted::email_is_valid;
use vstd::prelude::*;

verus! {

/// Where the bounds of an idempotency key lie: the empty text and every
/// text of 51 characters are rejected, every text of one character and
/// every text of 50 characters is accepted, whatever the characters.
pub proof fn law_key_bounds(raw: Seq<char>)
    ensures
        raw.len() == 0 ==> !is_valid_key(raw),
        raw.len() == 51 ==> !is_valid_key(raw),
        raw.len() == 1 || raw.len() == 50 ==> is_valid_key(raw),
{
}

/// Every step keeps the stored data consistent.
pub proof fn lemma_apply_wf(db: DatabaseView, op: Operation)
    requires
        db.wf(),
    ensures
        db.apply(op).wf(),
{
    match op {
        Operation::TryProcessing { user, key } => {
            lemma_reserve_wf(db, user, key);
        },
        Operation::SaveResponse { user, key, txn, response } => {
            if txn.wf() && db.commit_error(user, key, txn) is None {
                lemma_commit_wf(db, user, key, txn, response);
            }
        },
        Operation::Dequeue => {
            if has_pending(db.queue) {
                lemma_claim_wf(db);
            }
        },
        Operation::Complete { task, outcome } => {
            if is_in_flight(db.queue, task) {
                lemma_settle_wf(db, task, outcome);
            }
        },
    }
}

/// Whatever requests and workers do, in whatever order, the stored data
/// stays consistent: issues have distinct identifiers, every queued task
/// belongs to a stored issue, and no task is queued twice.
pub proof fn law_consistency_is_kept(db: DatabaseView, ops: Seq<Operation>)
    requires
        db.wf(),
    ensures
        db.run(ops).wf(),
    decreases ops.len(),
{
    if ops.len() > 0 {
        law_consistency_is_kept(db, ops.drop_last());
        lemma_apply_wf(db.run(ops.drop_last()), ops.last());
    }
}

/// An issue, once stored, is never changed and never removed: whatever
/// steps follow, the issues stored before are still there, unchanged and
/// in their order, in front of those that were published since.
pub proof fn law_issues_are_immutable(db: DatabaseView, ops: Seq<Operation>)
    ensures
        db.issues.is_prefix_of(db.run(ops).issues),
    decreases ops.len(),
{
    if ops.len() > 0 {
        law_issues_are_immutable(db, ops.drop_last());
        let before = db.run(ops.drop_last());
        assert(before.issues.is_prefix_of(before.apply(ops.last()).issues));
    }
}

/// Two workers never hold the same task: the task that a worker takes is
/// in flight from then on, and a worker that looks for a task while it is
/// takes another one.
pub proof fn law_claimed_task_is_held(db: DatabaseView)
    requires
        db.wf(),
        has_pending(db.queue),
    ensures
        is_in_flight(db.claim().queue, db.queue[db.next_pending()].task),
        has_pending(db.claim().queue) ==> db.claim().queue[db.claim().next_pending()].task
            != db.queue[db.next_pending()].task,
{
    lemma_claim_wf(db);
    let i = db.next_pending();
    let after = db.claim();
    assert(is_in_flight_at(after.queue, db.queue[i].task, i));
    if has_pending(after.queue) {
        lemma_claim_wf(after);
        let j = after.next_pending();
        assert(j != i);
        if j < i {
            assert(after.queue[j].task != after.queue[i].task);
        } else {
            assert(after.queue[i].task != after.queue[j].task);
        }
    }
}

/// No step removes a record, and no step changes a saved response.
pub proof fn lemma_apply_keeps_record(db: DatabaseView, op: Operation, id: RecordId)
    requires
        db.records.dom().contains(id),
    ensures
        db.apply(op).records.dom().contains(id),
        db.records[id] is Some ==> db.apply(op).records[id] == db.records[id],
{
}

/// Records are never removed, and a response, once saved, is never
/// replaced: whatever steps follow, the record is there, and where it
/// carried a response it carries the same response.
pub proof fn law_saved_response_is_final(db: DatabaseView, ops: Seq<Operation>, id: RecordId)
    requires
        db.records.dom().contains(id),
    ensures
        db.run(ops).records.dom().contains(id),
        db.records[id] is Some ==> db.run(ops).records[id] == db.records[id],
    decreases ops.len(),
{
    if ops.len() > 0 {
        law_saved_response_is_final(db, ops.drop_last(), id);
        lemma_apply_keeps_record(db.run(ops.drop_last()), ops.last(), id);
    }
}

/// Of the requests under one operator and key, at most one is admitted:
/// once a request has been admitted, no request under the same key is
/// admitted again, whatever requests and workers do in between. Once the
/// admitted request has saved its response, every request under the key
/// is answered with that response.
pub proof fn law_admitted_at_most_once(
    db: DatabaseView,
    user: u128,
    key: Seq<char>,
    ops: Seq<Operation>,
)
    requires
        db.admission(user, key) is Admit,
    ensures
        !(db.reserve(user, key).run(ops).admission(user, key) is Admit),
        forall|txn: TransactionView, response: EnvelopeView, later: Seq<Operation>|
            txn.wf() && #[trigger] db.reserve(user, key).run(ops).commit_error(user, key, txn)
                is None ==> #[trigger] db.reserve(user, key).run(ops).commit(
                user,
                key,
                txn,
                response,
            ).run(later).admission(user, key) == Admission::Replay(response),
{
    let reserved = db.reserve(user, key);
    law_saved_response_is_final(reserved, ops, (user, key));
    assert forall|txn: TransactionView, response: EnvelopeView, later: Seq<Operation>|
        txn.wf() && #[trigger] reserved.run(ops).commit_error(user, key, txn)
            is None implies #[trigger] reserved.run(ops).commit(user, key, txn, response).run(
        later,
    ).admission(user, key) == Admission::Replay(response) by {
        let committed = reserved.run(ops).commit(user, key, txn, response);
        law_saved_response_is_final(committed, later, (user, key));
    }
}

/// A response is saved at most once under one operator and key: after a
/// commit under the key, every further commit under it is refused,
/// whatever steps lie in between, so that no second issue and no second
/// set of delivery tasks is written for the key.
pub proof fn law_committed_at_most_once(
    db: DatabaseView,
    user: u128,
    key: Seq<char>,
    txn: TransactionView,
    response: EnvelopeView,
    ops: Seq<Operation>,
    again: TransactionView,
)
    requires
        db.commit_error(user, key, txn) is None,
    ensures
        db.commit(user, key, txn, response).run(ops).commit_error(user, key, again) == Some(
            StoreError::ResponseAlreadySaved,
        ),
{
    law_saved_response_is_final(db.commit(user, key, txn, response), ops, (user, key));
}

/// Submitting a publish request twice under one operator and key yields
/// the same answer twice, and the second submission changes nothing. A
/// submission that is the first under its key adds exactly one issue and
/// one pending delivery task for each recipient, and is answered with the
/// redirect to the newsletter page; a submission that is not changes
/// nothing.
///
/// This holds unless the first submission is admitted and then refused by
/// the store, because its issue identifier is taken or a recipient occurs
/// twice: such a submission leaves its reservation behind, and the second
/// is told to wait for it.
pub proof fn law_publish_is_idempotent(
    db: DatabaseView,
    user: u128,
    key: Seq<char>,
    issue: IssueView,
    recipients: Seq<Seq<char>>,
    issue_again: IssueView,
    recipients_again: Seq<Seq<char>>,
)
    requires
        db.wf(),
        db.admission(user, key) is Admit ==> db.publish(user, key, issue, recipients).1 is Ok,
    ensures
        ({
            let (first, answer) = db.publish(user, key, issue, recipients);
            let (second, answer_again) = first.publish(user, key, issue_again, recipients_again);
            &&& answer_again == answer
            &&& second == first
            &&& first.wf()
            &&& db.admission(user, key) is Admit ==> {
                &&& answer == Ok::<EnvelopeView, StoreError>(see_other_view(newsletter_path()))
                &&& first.issues == db.issues.push(issue)
                &&& first.queue == db.queue + as_pending(tasks_for(issue.id, recipients))
            }
            &&& !(db.admission(user, key) is Admit) ==> first == db
        }),
{
    if db.admission(user, key) is Admit {
        let reserved = db.reserve(user, key);
        let staged = TransactionView::empty().stage_issue(issue);
        let txn = staged.stage_tasks(issue.id, recipients);
        lemma_publish_transaction(issue, recipients);
        lemma_reserve_wf(db, user, key);
        lemma_commit_wf(reserved, user, key, txn, see_other_view(newsletter_path()));
        let first = db.publish(user, key, issue, recipients).0;
        assert(first.issues =~= db.issues.push(issue));
        assert(first.queue =~= db.queue + as_pending(tasks_for(issue.id, recipients)));
    }
}

/// The transaction of a publish request that staged its issue and the
/// tasks for `recipients` without being refused.
pub proof fn lemma_publish_transaction(issue: IssueView, recipients: Seq<Seq<char>>)
    requires
        TransactionView::empty().stage_issue(issue).stage_tasks_error(issue.id, recipients)
            is None,
    ensures
        TransactionView::empty().stage_issue(issue).stage_tasks(issue.id, recipients).wf(),
        TransactionView::empty().stage_issue(issue).stage_tasks(issue.id, recipients).issues
            == seq![issue],
        TransactionView::empty().stage_issue(issue).stage_tasks(issue.id, recipients).tasks
            == tasks_for(issue.id, recipients),
{
    let staged = TransactionView::empty().stage_issue(issue);
    let txn = staged.stage_tasks(issue.id, recipients);
    assert(txn.issues =~= seq![issue]);
    assert(txn.tasks =~= tasks_for(issue.id, recipients));
    assert(staged.tasks + tasks_for(issue.id, recipients) =~= tasks_for(issue.id, recipients));
    assert forall|k: int| 0 <= k < txn.tasks.len() implies has_issue(
        txn.issues,
        (#[trigger] txn.tasks[k]).issue_id,
    ) by {
        assert(txn.issues[0].id == issue.id);
    }
}

/// A queue without tasks of an issue counts none for it.
pub proof fn lemma_count_none(queue: Seq<QueuedView>, issue_id: u128)
    requires
        forall|k: int| 0 <= k < queue.len() ==> (#[trigger] queue[k]).task.issue_id != issue_id,
    ensures
        count_for_issue(queue, issue_id) == 0,
    decreases queue.len(),
{
    if queue.len() > 0 {
        assert forall|k: int| 0 <= k < queue.drop_last().len() implies (#[trigger] queue.drop_last()[k]).task.issue_id
            != issue_id by {
            assert(queue.drop_last()[k] == queue[k]);
        }
        lemma_count_none(queue.drop_last(), issue_id);
    }
}

/// The tasks of an issue in two queues add up.
pub proof fn lemma_count_append(front: Seq<QueuedView>, back: Seq<QueuedView>, issue_id: u128)
    ensures
        count_for_issue(front + back, issue_id) == count_for_issue(front, issue_id)
            + count_for_issue(back, issue_id),
    decreases back.len(),
{
    if back.len() == 0 {
        assert(front + back =~= front);
    } else {
        assert((front + back).drop_last() =~= front + back.drop_last());
        lemma_count_append(front, back.drop_last(), issue_id);
    }
}

/// The tasks made for the recipients of an issue are as many as the
/// recipients, and all belong to the issue.
pub proof fn lemma_count_created(issue_id: u128, recipients: Seq<Seq<char>>)
    ensures
        count_for_issue(as_pending(tasks_for(issue_id, recipients)), issue_id) == recipients.len(),
    decreases recipients.len(),
{
    let created = as_pending(tasks_for(issue_id, recipients));
    if recipients.len() > 0 {
        assert(created.drop_last() =~= as_pending(tasks_for(issue_id, recipients.drop_last())));
        lemma_count_created(issue_id, recipients.drop_last());
    }
}

/// No step adds a task to an issue that is stored already: where every
/// queued task of a stored issue is one of `allowed`, that is so after
/// the step too.
pub proof fn lemma_apply_adds_no_task(
    db: DatabaseView,
    op: Operation,
    issue_id: u128,
    allowed: Seq<TaskView>,
)
    requires
        db.wf(),
        has_issue(db.issues, issue_id),
        forall|k: int|
            0 <= k < db.queue.len() && (#[trigger] db.queue[k]).task.issue_id == issue_id
                ==> allowed.contains(db.queue[k].task),
    ensures
        db.apply(op).wf(),
        has_issue(db.apply(op).issues, issue_id),
        forall|k: int|
            0 <= k < db.apply(op).queue.len() && (#[trigger] db.apply(op).queue[k]).task.issue_id
                == issue_id ==> allowed.contains(db.apply(op).queue[k].task),
{
    lemma_apply_wf(db, op);
    let after = db.apply(op);
    let at = choose|i: int| 0 <= i < db.issues.len() && (#[trigger] db.issues[i]).id == issue_id;
    match op {
        Operation::TryProcessing { user, key } => {},
        Operation::SaveResponse { user, key, txn, response } => {
            if txn.wf() && db.commit_error(user, key, txn) is None {
                assert(after.issues[at].id == issue_id);
                assert forall|k: int|
                    0 <= k < after.queue.len() && (#[trigger] after.queue[k]).task.issue_id
                        == issue_id implies allowed.contains(after.queue[k].task) by {
                    if k < db.queue.len() {
                        assert(after.queue[k] == db.queue[k]);
                    } else {
                        let staged = txn.tasks[k - db.queue.len()];
                        assert(after.queue[k].task == staged);
                        assert(has_issue(txn.issues, staged.issue_id));
                        let i = choose|i: int|
                            0 <= i < txn.issues.len() && (#[trigger] txn.issues[i]).id
                                == staged.issue_id;
                        assert(!has_issue(db.issues, txn.issues[i].id));
                    }
                }
            }
        },
        Operation::Dequeue => {
            if has_pending(db.queue) {
                lemma_claim_wf(db);
                assert forall|k: int|
                    0 <= k < after.queue.len() && (#[trigger] after.queue[k]).task.issue_id
                        == issue_id implies allowed.contains(after.queue[k].task) by {
                    assert(after.queue[k].task == db.queue[k].task);
                }
            }
        },
        Operation::Complete { task, outcome } => {
            if is_in_flight(db.queue, task) {
                let i = choose|i: int| is_in_flight_at(db.queue, task, i);
                assert forall|k: int|
                    0 <= k < after.queue.len() && (#[trigger] after.queue[k]).task.issue_id
                        == issue_id implies allowed.contains(after.queue[k].task) by {
                    if outcome == DeliveryOutcome::TransientFailure {
                        assert(after.queue[k].task == db.queue[k].task);
                    } else if k < i {
                        assert(after.queue[k] == db.queue[k]);
                    } else {
                        assert(after.queue[k] == db.queue[k + 1]);
                    }
                }
            }
        },
    }
}

/// No sequence of steps adds a task to an issue that is stored already.
pub proof fn lemma_run_adds_no_task(
    db: DatabaseView,
    ops: Seq<Operation>,
    issue_id: u128,
    allowed: Seq<TaskView>,
)
    requires
        db.wf(),
        has_issue(db.issues, issue_id),
        forall|k: int|
            0 <= k < db.queue.len() && (#[trigger] db.queue[k]).task.issue_id == issue_id
                ==> allowed.contains(db.queue[k].task),
    ensures
        db.run(ops).wf(),
        has_issue(db.run(ops).issues, issue_id),
        forall|k: int|
            0 <= k < db.run(ops).queue.len() && (#[trigger] db.run(ops).queue[k]).task.issue_id
                == issue_id ==> allowed.contains(db.run(ops).queue[k].task),
    decreases ops.len(),
{
    if ops.len() > 0 {
        lemma_run_adds_no_task(db, ops.drop_last(), issue_id, allowed);
        lemma_apply_adds_no_task(db.run(ops.drop_last()), ops.last(), issue_id, allowed);
    }
}

/// The delivery tasks of an issue are fixed when it is published: the
/// first request under a key that succeeds leaves as many tasks of its
/// issue in the queue as there were recipients at that time, and whatever
/// steps follow, later requests and worker passes among them, every
/// queued task of the issue is one of those.
pub proof fn law_tasks_are_fixed_at_publication(
    db: DatabaseView,
    user: u128,
    key: Seq<char>,
    issue: IssueView,
    recipients: Seq<Seq<char>>,
    ops: Seq<Operation>,
)
    requires
        db.wf(),
        db.admission(user, key) is Admit,
        db.publish(user, key, issue, recipients).1 is Ok,
    ensures
        count_for_issue(db.publish(user, key, issue, recipients).0.queue, issue.id)
            == recipients.len(),
        forall|k: int|
            0 <= k < db.publish(user, key, issue, recipients).0.run(ops).queue.len() && (
            #[trigger] db.publish(user, key, issue, recipients).0.run(ops).queue[k]).task.issue_id
                == issue.id ==> tasks_for(issue.id, recipients).contains(
                db.publish(user, key, issue, recipients).0.run(ops).queue[k].task,
            ),
{
    let first = db.publish(user, key, issue, recipients).0;
    let created = tasks_for(issue.id, recipients);
    law_publish_is_idempotent(db, user, key, issue, recipients, issue, recipients);
    lemma_publish_transaction(issue, recipients);
    let txn = TransactionView::empty().stage_issue(issue).stage_tasks(issue.id, recipients);
    assert(txn.issues[0] == issue);
    assert(!has_issue(db.issues, issue.id));
    assert forall|k: int| 0 <= k < db.queue.len() implies (#[trigger] db.queue[k]).task.issue_id
        != issue.id by {
        assert(has_issue(db.issues, db.queue[k].task.issue_id));
    }
    lemma_count_none(db.queue, issue.id);
    lemma_count_append(db.queue, as_pending(created), issue.id);
    lemma_count_created(issue.id, recipients);
    assert(first.issues[db.issues.len() as int].id == issue.id);
    assert forall|k: int|
        0 <= k < first.queue.len() && (#[trigger] first.queue[k]).task.issue_id
            == issue.id implies created.contains(first.queue[k].task) by {
        assert(first.queue[k].task == created[k - db.queue.len()]);
    }
    lemma_run_adds_no_task(first, ops, issue.id, created);
}

/// What one pass of a worker does to the queue: where a task is pending,
/// the first pending task is taken; after a transient failure the queue
/// is as before, otherwise the task is removed and every other entry
/// stays as it was. Records and issues are not touched.
pub proof fn lemma_deliver(db: DatabaseView, reply: DeliveryOutcome)
    requires
        db.wf(),
        has_pending(db.queue),
    ensures
        is_next_pending(db.queue, db.next_pending()),
        db.deliver(reply).wf(),
        db.deliver(reply).records == db.records,
        db.deliver(reply).issues == db.issues,
        db.deliver(reply).queue == if DatabaseView::outcome_for(
            db.queue[db.next_pending()].task,
            reply,
        ) == DeliveryOutcome::TransientFailure {
            db.queue
        } else {
            db.queue.remove(db.next_pending())
        },
{
    lemma_claim_wf(db);
    let i = db.next_pending();
    let task = db.queue[i].task;
    let claimed = db.claim();
    let outcome = DatabaseView::outcome_for(task, reply);
    assert(is_in_flight_at(claimed.queue, task, i));
    lemma_in_flight_at(claimed.queue, task, i);
    lemma_settle_wf(claimed, task, outcome);
    let j = choose|j: int| is_in_flight_at(claimed.queue, task, j);
    assert(j == i);
    if outcome == DeliveryOutcome::TransientFailure {
        assert(db.deliver(reply).queue =~= db.queue);
    } else {
        assert(db.deliver(reply).queue =~= db.queue.remove(i));
    }
}

/// A task whose delivery fails for good, because the stored address is
/// no valid email address or because the gateway says so, is removed by
/// the pass that took it. Every other task stays in the queue as it was,
/// so that the next pass goes on with the task behind it, and whatever
/// steps follow, the removed task is never queued again.
pub proof fn law_permanent_failure_removes_task(
    db: DatabaseView,
    reply: DeliveryOutcome,
    ops: Seq<Operation>,
)
    requires
        db.wf(),
        has_pending(db.queue),
        DatabaseView::outcome_for(db.queue[db.next_pending()].task, reply)
            == DeliveryOutcome::PermanentFailure,
    ensures
        db.deliver(reply).queue == db.queue.remove(db.next_pending()),
        !is_queued(db.deliver(reply).run(ops).queue, db.queue[db.next_pending()].task),
{
    lemma_deliver(db, reply);
    let i = db.next_pending();
    let task = db.queue[i].task;
    let after = db.deliver(reply);
    let others = Seq::new(after.queue.len(), |k: int| after.queue[k].task);
    assert forall|k: int| 0 <= k < after.queue.len() implies (#[trigger] after.queue[k]).task
        != task && others.contains(after.queue[k].task) by {
        if k < i {
            assert(after.queue[k] == db.queue[k]);
            assert(db.queue[k].task != db.queue[i].task);
        } else {
            assert(after.queue[k] == db.queue[k + 1]);
            assert(db.queue[i].task != db.queue[k + 1].task);
        }
        assert(others[k] == after.queue[k].task);
    }
    assert(has_issue(db.issues, db.queue[i].task.issue_id));
    lemma_run_adds_no_task(after, ops, task.issue_id, others);
    let end = after.run(ops);
    if is_queued(end.queue, task) {
        let k = choose|k: int| 0 <= k < end.queue.len() && (#[trigger] end.queue[k]).task == task;
        assert(others.contains(end.queue[k].task));
        let m = choose|m: int| 0 <= m < others.len() && others[m] == task;
        assert(after.queue[m].task != task);
    }
}

/// A task whose delivery fails for now stays in the queue, pending: the
/// pass leaves the store exactly as it found it, so the next pass takes
/// the same task again, and a pass in which the gateway accepts the email
/// removes it.
pub proof fn law_transient_failure_retries(db: DatabaseView)
    requires
        db.wf(),
        has_pending(db.queue),
        email_is_valid(db.queue[db.next_pending()].task.recipient),
    ensures
        db.deliver(DeliveryOutcome::TransientFailure) == db,
        db.deliver(DeliveryOutcome::TransientFailure).deliver(DeliveryOutcome::Delivered).queue
            == db.queue.remove(db.next_pending()),
{
    lemma_deliver(db, DeliveryOutcome::TransientFailure);
    lemma_deliver(db, DeliveryOutcome::Delivered);
}

} // verus!
