//! The state of the service as mathematical values, and what each
//! operation does to it. The contracts of the executable operations are
//! stated over these definitions.

use crate::error::StoreError;
use crate::idempotency::records::RecordId;
use crate::idempotency::records::SavedView;
use crate::idempotency::response::EnvelopeView;
use crate::idempotency::response::see_other_view;
use crate::trusted::email_is_valid;
use vstd::prelude::*;

verus! {

/// A newsletter issue.
pub struct IssueView {
    pub id: u128,
    pub title: Seq<char>,
    pub text_content: Seq<char>,
    pub html_content: Seq<char>,
    pub published_at: i64,
}

/// One unit of outbound work: one issue for one recipient.
pub struct TaskView {
    pub issue_id: u128,
    pub recipient: Seq<char>,
}

/// A task in the delivery queue; `in_flight` while a worker holds it.
pub struct QueuedView {
    pub task: TaskView,
    pub in_flight: bool,
}

/// The writes that a transaction has staged and not yet committed.
pub struct TransactionView {
    pub issues: Seq<IssueView>,
    pub tasks: Seq<TaskView>,
}

/// Everything that is durable.
pub struct DatabaseView {
    pub records: Map<RecordId, SavedView>,
    pub issues: Seq<IssueView>,
    pub queue: Seq<QueuedView>,
}

/// What is decided for a request when its key is looked up.
pub enum Admission {
    /// No record exists: the request may go ahead.
    Admit,
    /// The request was answered before, with this response.
    Replay(EnvelopeView),
    /// Another request holds the reservation and has not completed.
    Pending,
}

/// How one delivery attempt ended.
#[derive(Clone, Copy, Debug, PartialEq, Eq, Structural)]
pub enum DeliveryOutcome {
    /// The gateway accepted the email.
    Delivered,
    /// The address can never be delivered to.
    PermanentFailure,
    /// The gateway could not be reached; a later attempt may succeed.
    TransientFailure,
}

/// One step of the service, as the store sees it. Requests and workers
/// that run side by side take such steps in some order.
pub enum Operation {
    /// A request of `user` under `key` asks to be admitted.
    TryProcessing { user: u128, key: Seq<char> },
    /// A request commits `txn` and saves `response` under its key.
    SaveResponse { user: u128, key: Seq<char>, txn: TransactionView, response: EnvelopeView },
    /// A worker takes the next pending task.
    Dequeue,
    /// A worker ends the delivery of `task` with `outcome`.
    Complete { task: TaskView, outcome: DeliveryOutcome },
}

/// Where redirects after publishing lead.
pub open spec fn newsletter_path() -> Seq<char> {
    "/admin/newsletter"@
}

/// Some issue in `issues` has the identifier `id`.
pub open spec fn has_issue(issues: Seq<IssueView>, id: u128) -> bool {
    exists|i: int| 0 <= i < issues.len() && (#[trigger] issues[i]).id == id
}

/// No two issues in `issues` share an identifier.
pub open spec fn distinct_issues(issues: Seq<IssueView>) -> bool {
    forall|i: int, j: int|
        0 <= i < j < issues.len() ==> (#[trigger] issues[i]).id != (#[trigger] issues[j]).id
}

/// The tasks for delivering issue `issue_id` to each of `recipients`, in
/// their order.
pub open spec fn tasks_for(issue_id: u128, recipients: Seq<Seq<char>>) -> Seq<TaskView> {
    Seq::new(recipients.len(), |i: int| TaskView { issue_id, recipient: recipients[i] })
}

/// The tasks as they enter the queue: pending, in their order.
pub open spec fn as_pending(tasks: Seq<TaskView>) -> Seq<QueuedView> {
    Seq::new(tasks.len(), |i: int| QueuedView { task: tasks[i], in_flight: false })
}

/// Some entry of `queue` holds `task`.
pub open spec fn is_queued(queue: Seq<QueuedView>, task: TaskView) -> bool {
    exists|i: int| 0 <= i < queue.len() && (#[trigger] queue[i]).task == task
}

/// No two entries of `queue` hold the same task.
pub open spec fn distinct_queue(queue: Seq<QueuedView>) -> bool {
    forall|i: int, j: int|
        0 <= i < j < queue.len() ==> (#[trigger] queue[i]).task != (#[trigger] queue[j]).task
}

/// The number of entries of `queue` that belong to issue `issue_id`.
pub open spec fn count_for_issue(queue: Seq<QueuedView>, issue_id: u128) -> nat
    decreases queue.len(),
{
    if queue.len() == 0 {
        0
    } else {
        let rest = count_for_issue(queue.drop_last(), issue_id);
        if queue.last().task.issue_id == issue_id {
            rest + 1
        } else {
            rest
        }
    }
}

/// Entry `i` is the first of `queue` that no worker holds.
pub open spec fn is_next_pending(queue: Seq<QueuedView>, i: int) -> bool {
    &&& 0 <= i < queue.len()
    &&& !queue[i].in_flight
    &&& forall|j: int| 0 <= j < i ==> (#[trigger] queue[j]).in_flight
}

/// Some entry of `queue` is held by no worker.
pub open spec fn has_pending(queue: Seq<QueuedView>) -> bool {
    exists|i: int| 0 <= i < queue.len() && !(#[trigger] queue[i]).in_flight
}

/// Entry `i` of `queue` holds `task` and is held by a worker.
pub open spec fn is_in_flight_at(queue: Seq<QueuedView>, task: TaskView, i: int) -> bool {
    0 <= i < queue.len() && queue[i].task == task && queue[i].in_flight
}

/// Some worker holds `task`.
pub open spec fn is_in_flight(queue: Seq<QueuedView>, task: TaskView) -> bool {
    exists|i: int| is_in_flight_at(queue, task, i)
}

impl TransactionView {
    /// A transaction that has staged nothing.
    pub open spec fn empty() -> TransactionView {
        TransactionView { issues: Seq::empty(), tasks: Seq::empty() }
    }

    /// Staged issues have distinct identifiers, every staged task belongs
    /// to a staged issue, and no task is staged twice.
    pub open spec fn wf(self) -> bool {
        &&& distinct_issues(self.issues)
        &&& forall|k: int|
            0 <= k < self.tasks.len() ==> has_issue(self.issues, (#[trigger] self.tasks[k]).issue_id)
        &&& self.tasks.no_duplicates()
    }

    /// The transaction after staging `issue`.
    pub open spec fn stage_issue(self, issue: IssueView) -> TransactionView {
        TransactionView { issues: self.issues.push(issue), tasks: self.tasks }
    }

    /// Why the tasks of `issue_id` for `recipients` cannot be staged, if
    /// they cannot.
    pub open spec fn stage_tasks_error(self, issue_id: u128, recipients: Seq<Seq<char>>) -> Option<
        StoreError,
    > {
        if !has_issue(self.issues, issue_id) {
            Some(StoreError::UnknownIssue)
        } else if !(self.tasks + tasks_for(issue_id, recipients)).no_duplicates() {
            Some(StoreError::DuplicateRecipient)
        } else {
            None
        }
    }

    /// The transaction after staging one task per recipient.
    pub open spec fn stage_tasks(self, issue_id: u128, recipients: Seq<Seq<char>>) -> TransactionView {
        TransactionView { issues: self.issues, tasks: self.tasks + tasks_for(issue_id, recipients) }
    }
}

impl DatabaseView {
    /// Nothing is stored.
    pub open spec fn empty() -> DatabaseView {
        DatabaseView { records: Map::empty(), issues: Seq::empty(), queue: Seq::empty() }
    }

    /// Issues have distinct identifiers, every queued task belongs to a
    /// stored issue, and no task is queued twice.
    pub open spec fn wf(self) -> bool {
        &&& distinct_issues(self.issues)
        &&& forall|k: int|
            0 <= k < self.queue.len() ==> has_issue(
                self.issues,
                (#[trigger] self.queue[k]).task.issue_id,
            )
        &&& distinct_queue(self.queue)
    }

    /// What is decided for a request of `user` under `key`.
    pub open spec fn admission(self, user: u128, key: Seq<char>) -> Admission {
        if !self.records.dom().contains((user, key)) {
            Admission::Admit
        } else {
            match self.records[(user, key)] {
                Some(saved) => Admission::Replay(saved),
                None => Admission::Pending,
            }
        }
    }

    /// The state after a reservation was recorded for `user` and `key`.
    pub open spec fn reserve(self, user: u128, key: Seq<char>) -> DatabaseView {
        DatabaseView { records: self.records.insert((user, key), None), ..self }
    }

    /// Why `txn` cannot be committed under the reservation of `user` and
    /// `key`, if it cannot.
    pub open spec fn commit_error(self, user: u128, key: Seq<char>, txn: TransactionView) -> Option<
        StoreError,
    > {
        if !self.records.dom().contains((user, key)) {
            Some(StoreError::ReservationMissing)
        } else if self.records[(user, key)] is Some {
            Some(StoreError::ResponseAlreadySaved)
        } else if exists|i: int|
            0 <= i < txn.issues.len() && has_issue(self.issues, (#[trigger] txn.issues[i]).id) {
            Some(StoreError::DuplicateIssue)
        } else {
            None
        }
    }

    /// The state after `txn` was committed and `response` attached to the
    /// record of `user` and `key`: all of it at once.
    pub open spec fn commit(
        self,
        user: u128,
        key: Seq<char>,
        txn: TransactionView,
        response: EnvelopeView,
    ) -> DatabaseView {
        DatabaseView {
            records: self.records.insert((user, key), Some(response)),
            issues: self.issues + txn.issues,
            queue: self.queue + as_pending(txn.tasks),
        }
    }

    /// What publishing `issue` to `recipients` for `user` under `key`
    /// leaves behind, and how the request is answered.
    pub open spec fn publish(
        self,
        user: u128,
        key: Seq<char>,
        issue: IssueView,
        recipients: Seq<Seq<char>>,
    ) -> (DatabaseView, Result<EnvelopeView, StoreError>) {
        match self.admission(user, key) {
            Admission::Replay(saved) => (self, Ok(saved)),
            Admission::Pending => (self, Err(StoreError::ReservationPending)),
            Admission::Admit => {
                let reserved = self.reserve(user, key);
                let staged = TransactionView::empty().stage_issue(issue);
                let txn = staged.stage_tasks(issue.id, recipients);
                if staged.stage_tasks_error(issue.id, recipients) is Some {
                    (reserved, Err(staged.stage_tasks_error(issue.id, recipients)->0))
                } else if reserved.commit_error(user, key, txn) is Some {
                    (reserved, Err(reserved.commit_error(user, key, txn)->0))
                } else {
                    let response = see_other_view(newsletter_path());
                    (reserved.commit(user, key, txn, response), Ok(response))
                }
            },
        }
    }

    /// The state after one step. A step that the store refuses changes
    /// nothing.
    pub open spec fn apply(self, op: Operation) -> DatabaseView {
        match op {
            Operation::TryProcessing { user, key } => if self.admission(user, key) is Admit {
                self.reserve(user, key)
            } else {
                self
            },
            Operation::SaveResponse { user, key, txn, response } => if txn.wf()
                && self.commit_error(user, key, txn) is None {
                self.commit(user, key, txn, response)
            } else {
                self
            },
            Operation::Dequeue => if has_pending(self.queue) {
                self.claim()
            } else {
                self
            },
            Operation::Complete { task, outcome } => if is_in_flight(self.queue, task) {
                self.settle(task, outcome)
            } else {
                self
            },
        }
    }

    /// The state after the steps `ops`, taken in their order.
    pub open spec fn run(self, ops: Seq<Operation>) -> DatabaseView
        decreases ops.len(),
    {
        if ops.len() == 0 {
            self
        } else {
            self.run(ops.drop_last()).apply(ops.last())
        }
    }

    /// The index of the task that the next worker pass takes, where a
    /// task is pending.
    pub open spec fn next_pending(self) -> int {
        choose|i: int| is_next_pending(self.queue, i)
    }

    /// The state after a worker took the first task that none holds,
    /// where there is one: the task is in flight, and nothing else has
    /// changed.
    pub open spec fn claim(self) -> DatabaseView {
        let i = self.next_pending();
        DatabaseView {
            queue: self.queue.update(i, QueuedView { task: self.queue[i].task, in_flight: true }),
            ..self
        }
    }

    /// How the delivery of `task` ends when the gateway, if it is asked,
    /// answers with `reply`: a stored address that is no valid email
    /// address fails for good, and the gateway is not asked.
    pub open spec fn outcome_for(task: TaskView, reply: DeliveryOutcome) -> DeliveryOutcome {
        if email_is_valid(task.recipient) {
            reply
        } else {
            DeliveryOutcome::PermanentFailure
        }
    }

    /// The state after one pass of a worker: nothing changes where no
    /// task is pending; otherwise the first pending task is taken and
    /// settled at once.
    pub open spec fn deliver(self, reply: DeliveryOutcome) -> DatabaseView {
        if !has_pending(self.queue) {
            self
        } else {
            let task = self.queue[self.next_pending()].task;
            self.claim().settle(task, Self::outcome_for(task, reply))
        }
    }

    /// The state after the worker that holds `task` has seen `outcome`:
    /// the task is gone unless the failure was transient, in which case it
    /// is pending again. A worker that gives its attempt up for another
    /// reason leaves the task as after a transient failure.
    pub open spec fn settle(self, task: TaskView, outcome: DeliveryOutcome) -> DatabaseView {
        let i = choose|i: int| is_in_flight_at(self.queue, task, i);
        if outcome == DeliveryOutcome::TransientFailure {
            DatabaseView {
                queue: self.queue.update(i, QueuedView { task, in_flight: false }),
                ..self
            }
        } else {
            DatabaseView { queue: self.queue.remove(i), ..self }
        }
    }
}

/// A reservation leaves issues and queue as they were.
pub proof fn lemma_reserve_wf(db: DatabaseView, user: u128, key: Seq<char>)
    requires
        db.wf(),
    ensures
        db.reserve(user, key).wf(),
{
}

/// A commit that is not refused keeps the state consistent.
pub proof fn lemma_commit_wf(
    db: DatabaseView,
    user: u128,
    key: Seq<char>,
    txn: TransactionView,
    response: EnvelopeView,
)
    requires
        db.wf(),
        txn.wf(),
        db.commit_error(user, key, txn) is None,
    ensures
        db.commit(user, key, txn, response).wf(),
{
    let after = db.commit(user, key, txn, response);
    let n = db.issues.len() as int;
    let m = db.queue.len() as int;
    assert forall|j: int| 0 <= j < txn.issues.len() implies !has_issue(
        db.issues,
        (#[trigger] txn.issues[j]).id,
    ) by {}
    assert forall|i: int, j: int| 0 <= i < j < after.issues.len() implies (#[trigger] after.issues[i]).id
        != (#[trigger] after.issues[j]).id by {
        if j < n {
            assert(db.issues[i].id != db.issues[j].id);
        } else if i >= n {
            assert(txn.issues[i - n].id != txn.issues[j - n].id);
        } else {
            assert(!has_issue(db.issues, txn.issues[j - n].id));
            assert(db.issues[i].id != txn.issues[j - n].id);
        }
    }
    assert forall|k: int| 0 <= k < after.queue.len() implies has_issue(
        after.issues,
        (#[trigger] after.queue[k]).task.issue_id,
    ) by {
        if k < m {
            assert(has_issue(db.issues, db.queue[k].task.issue_id));
            let i = choose|i: int|
                0 <= i < db.issues.len() && (#[trigger] db.issues[i]).id
                    == db.queue[k].task.issue_id;
            assert(after.issues[i].id == after.queue[k].task.issue_id);
        } else {
            assert(after.queue[k].task == txn.tasks[k - m]);
            assert(has_issue(txn.issues, txn.tasks[k - m].issue_id));
            let i = choose|i: int|
                0 <= i < txn.issues.len() && (#[trigger] txn.issues[i]).id == txn.tasks[k
                    - m].issue_id;
            assert(after.issues[n + i].id == after.queue[k].task.issue_id);
        }
    }
    assert forall|a: int, b: int| 0 <= a < b < after.queue.len() implies (#[trigger] after.queue[a]).task
        != (#[trigger] after.queue[b]).task by {
        if b < m {
            assert(db.queue[a].task != db.queue[b].task);
        } else if a >= m {
            assert(txn.tasks[a - m] != txn.tasks[b - m]);
        } else {
            assert(after.queue[b].task == txn.tasks[b - m]);
            assert(has_issue(txn.issues, txn.tasks[b - m].issue_id));
            let i = choose|i: int|
                0 <= i < txn.issues.len() && (#[trigger] txn.issues[i]).id == txn.tasks[b
                    - m].issue_id;
            assert(!has_issue(db.issues, txn.issues[i].id));
            assert(has_issue(db.issues, db.queue[a].task.issue_id));
        }
    }
}

/// Where some task is pending, exactly one entry is the first pending one.
pub proof fn lemma_next_pending(queue: Seq<QueuedView>, i: int)
    requires
        is_next_pending(queue, i),
    ensures
        has_pending(queue),
        forall|j: int| is_next_pending(queue, j) ==> j == i,
{
    assert forall|j: int| is_next_pending(queue, j) implies j == i by {
        if j < i {
            assert(queue[j].in_flight);
        } else if i < j {
            assert(queue[i].in_flight);
        }
    }
}

/// In a queue without repeated tasks, a task is in flight at one place only.
pub proof fn lemma_in_flight_at(queue: Seq<QueuedView>, task: TaskView, i: int)
    requires
        distinct_queue(queue),
        is_in_flight_at(queue, task, i),
    ensures
        is_in_flight(queue, task),
        forall|j: int| is_in_flight_at(queue, task, j) ==> j == i,
{
    assert forall|j: int| is_in_flight_at(queue, task, j) implies j == i by {
        if j < i {
            assert(queue[j].task != queue[i].task);
        } else if i < j {
            assert(queue[i].task != queue[j].task);
        }
    }
}

/// Taking the next pending task keeps the state consistent.
pub proof fn lemma_claim_wf(db: DatabaseView)
    requires
        db.wf(),
        has_pending(db.queue),
    ensures
        is_next_pending(db.queue, db.next_pending()),
        db.claim().wf(),
{
    lemma_first_pending_exists(db.queue, choose|i: int| 0 <= i < db.queue.len() && !(#[trigger] db.queue[i]).in_flight);
    let i = db.next_pending();
    let after = db.claim();
    assert forall|k: int| 0 <= k < after.queue.len() implies has_issue(
        after.issues,
        (#[trigger] after.queue[k]).task.issue_id,
    ) by {
        assert(after.queue[k].task == db.queue[k].task);
    }
    assert forall|a: int, b: int| 0 <= a < b < after.queue.len() implies (#[trigger] after.queue[a]).task
        != (#[trigger] after.queue[b]).task by {
        assert(db.queue[a].task != db.queue[b].task);
    }
}

/// Below a pending entry there is a first pending entry.
pub proof fn lemma_first_pending_exists(queue: Seq<QueuedView>, i: int)
    requires
        0 <= i < queue.len(),
        !queue[i].in_flight,
    ensures
        exists|j: int| is_next_pending(queue, j),
    decreases i,
{
    if forall|j: int| 0 <= j < i ==> (#[trigger] queue[j]).in_flight {
        assert(is_next_pending(queue, i));
    } else {
        let j = choose|j: int| 0 <= j < i && !(#[trigger] queue[j]).in_flight;
        lemma_first_pending_exists(queue, j);
    }
}

/// Settling a task that is in flight keeps the state consistent.
pub proof fn lemma_settle_wf(db: DatabaseView, task: TaskView, outcome: DeliveryOutcome)
    requires
        db.wf(),
        is_in_flight(db.queue, task),
    ensures
        db.settle(task, outcome).wf(),
{
    let i = choose|i: int| is_in_flight_at(db.queue, task, i);
    let after = db.settle(task, outcome);
    if outcome == DeliveryOutcome::TransientFailure {
        assert forall|k: int| 0 <= k < after.queue.len() implies has_issue(
            after.issues,
            (#[trigger] after.queue[k]).task.issue_id,
        ) by {
            assert(after.queue[k].task == db.queue[k].task);
        }
        assert forall|a: int, b: int| 0 <= a < b < after.queue.len() implies (#[trigger] after.queue[a]).task
            != (#[trigger] after.queue[b]).task by {
            assert(db.queue[a].task != db.queue[b].task);
        }
    } else {
        assert forall|k: int| 0 <= k < after.queue.len() implies has_issue(
            after.issues,
            (#[trigger] after.queue[k]).task.issue_id,
        ) by {
            if k < i {
                assert(after.queue[k] == db.queue[k]);
            } else {
                assert(after.queue[k] == db.queue[k + 1]);
            }
        }
        assert forall|a: int, b: int| 0 <= a < b < after.queue.len() implies (#[trigger] after.queue[a]).task
            != (#[trigger] after.queue[b]).task by {
            let a0 = if a < i { a } else { a + 1 };
            let b0 = if b < i { b } else { b + 1 };
            assert(after.queue[a] == db.queue[a0]);
            assert(after.queue[b] == db.queue[b0]);
            assert(db.queue[a0].task != db.queue[b0].task);
        }
    }
}

} // verus!
