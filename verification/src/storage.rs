//! The durable state of the service and the transactions that change it.

use crate::authentication::UserId;
use crate::delivery::task::DeliveryTask;
use crate::delivery::task::QueuedTask;
use crate::delivery::task::find_task;
use crate::delivery::task::queue_view;
use crate::delivery::task::staged_view;
use crate::error::StoreError;
use crate::idempotency::key::IdempotencyKey;
use crate::idempotency::records::IdempotencyStore;
use crate::idempotency::records::RecordState;
use crate::idempotency::response::ResponseEnvelope;
use crate::issues::IssueId;
use crate::issues::NewsletterIssue;
use crate::issues::issues_view;
use crate::model::count_for_issue;
use crate::model::Admission;
use crate::model::DatabaseView;
use crate::model::DeliveryOutcome;
use crate::model::TransactionView;
use crate::model::has_issue;
use crate::model::has_pending;
use crate::model::is_in_flight;
use crate::model::is_in_flight_at;
use crate::model::is_next_pending;
use crate::model::lemma_claim_wf;
use crate::model::lemma_commit_wf;
use crate::model::lemma_in_flight_at;
use crate::model::lemma_next_pending;
use crate::model::lemma_settle_wf;
use crate::model::tasks_for;
use vstd::prelude::*;

verus! {

/// The character sequences of a vector of strings, in its order.
pub open spec fn strings_view(strings: Seq<String>) -> Seq<Seq<char>> {
    Seq::new(strings.len(), |i: int| strings[i]@)
}

/// Whether some issue of `issues` has the identifier `id`.
pub fn contains_issue(issues: &Vec<NewsletterIssue>, id: IssueId) -> (res: bool)
    ensures
        res == has_issue(issues_view(issues@), id.0),
{
    let mut i: usize = 0;
    while i < issues.len()
        invariant
            i <= issues@.len(),
            forall|j: int| 0 <= j < i ==> (#[trigger] issues_view(issues@)[j]).id != id.0,
        decreases issues@.len() - i,
    {
        if issues[i].newsletter_issue_id.0 == id.0 {
            assert(issues_view(issues@)[i as int].id == id.0);
            return true;
        }
        i = i + 1;
    }
    false
}

/// A unit of work: the issues and delivery tasks that were written since
/// the transaction began. None of it is durable until the transaction is
/// committed, and all of it becomes durable at once.
#[derive(Debug)]
pub struct Transaction {
    issues: Vec<NewsletterIssue>,
    tasks: Vec<QueuedTask>,
}

impl View for Transaction {
    type V = TransactionView;

    closed spec fn view(&self) -> TransactionView {
        TransactionView { issues: issues_view(self.issues@), tasks: staged_view(self.tasks@) }
    }
}

impl Transaction {
    /// The staged writes are consistent among themselves.
    pub closed spec fn wf(&self) -> bool {
        &&& self@.wf()
        &&& forall|k: int| 0 <= k < self.tasks@.len() ==> !(#[trigger] self.tasks@[k]).in_flight
    }

    /// A transaction that has written nothing yet.
    pub fn new() -> (res: Transaction)
        ensures
            res.wf(),
            res@ == TransactionView::empty(),
    {
        let res = Transaction { issues: Vec::new(), tasks: Vec::new() };
        assert(res@.issues =~= Seq::empty());
        assert(res@.tasks =~= Seq::empty());
        res
    }

    /// Stages `issue`, unless an issue with its identifier is staged
    /// already.
    pub(crate) fn stage_issue(&mut self, issue: NewsletterIssue) -> (res: Result<(), StoreError>)
        requires
            old(self).wf(),
        ensures
            final(self).wf(),
            match res {
                Ok(()) => !has_issue(old(self)@.issues, issue@.id) && final(self)@ == old(self)@.stage_issue(issue@),
                Err(e) => e == StoreError::DuplicateIssue && has_issue(old(self)@.issues, issue@.id)
                    && final(self)@ == old(self)@,
            },
    {
        if contains_issue(&self.issues, issue.newsletter_issue_id) {
            return Err(StoreError::DuplicateIssue);
        }
        let ghost before = self@;
        let ghost added = issue@;
        self.issues.push(issue);
        proof {
            assert(self@.issues =~= before.issues.push(added));
            assert(self@.tasks =~= before.tasks);
            assert forall|k: int| 0 <= k < self@.tasks.len() implies has_issue(
                self@.issues,
                (#[trigger] self@.tasks[k]).issue_id,
            ) by {
                assert(has_issue(before.issues, before.tasks[k].issue_id));
                let i = choose|i: int|
                    0 <= i < before.issues.len() && (#[trigger] before.issues[i]).id
                        == before.tasks[k].issue_id;
                assert(self@.issues[i].id == before.tasks[k].issue_id);
            }
        }
        Ok(())
    }

    /// Stages one delivery task of issue `issue_id` for each of
    /// `recipients`, or none at all: the issue must be staged in this
    /// transaction, and no task may be staged twice. Returns the number of
    /// tasks staged.
    pub(crate) fn stage_tasks(&mut self, issue_id: IssueId, recipients: &Vec<String>) -> (res: Result<
        usize,
        StoreError,
    >)
        requires
            old(self).wf(),
        ensures
            final(self).wf(),
            match res {
                Ok(n) => old(self)@.stage_tasks_error(issue_id.0, strings_view(recipients@)) is None
                    && n == recipients@.len() && final(self)@ == old(self)@.stage_tasks(
                    issue_id.0,
                    strings_view(recipients@),
                ),
                Err(e) => old(self)@.stage_tasks_error(issue_id.0, strings_view(recipients@))
                    == Some(e) && final(self)@ == old(self)@,
            },
    {
        if !contains_issue(&self.issues, issue_id) {
            return Err(StoreError::UnknownIssue);
        }
        let ghost before = self@;
        let ghost wanted = tasks_for(issue_id.0, strings_view(recipients@));
        let start: usize = self.tasks.len();
        let mut i: usize = 0;
        while i < recipients.len()
            invariant
                i <= recipients@.len(),
                start == before.tasks.len(),
                before == old(self)@,
                wanted == tasks_for(issue_id.0, strings_view(recipients@)),
                has_issue(before.issues, issue_id.0),
                before.wf(),
                self@.issues == before.issues,
                self.tasks@.len() == start + i,
                self@.tasks == before.tasks + wanted.take(i as int),
                self@.tasks.no_duplicates(),
                forall|k: int| 0 <= k < self.tasks@.len() ==> !(#[trigger] self.tasks@[k]).in_flight,
            decreases recipients@.len() - i,
        {
            let ghost current = self@;
            match find_task(&self.tasks, issue_id, &recipients[i]) {
                Some(j) => {
                    proof {
                        let full = before.tasks + wanted;
                        assert(current.tasks[j as int] == full[j as int]);
                        assert(full[start + i] == wanted[i as int]);
                        assert(full[j as int] == full[start + i]);
                        assert(!full.no_duplicates());
                    }
                    let ghost entries = self.tasks@;
                    self.tasks.truncate(start);
                    proof {
                        assert(self.tasks@ == entries.subrange(0, start as int));
                        assert forall|k: int| 0 <= k < start implies self@.tasks[k]
                            == before.tasks[k] by {
                            assert(self.tasks@[k] == entries[k]);
                            assert(current.tasks[k] == before.tasks[k]);
                        }
                        assert(self@.tasks =~= before.tasks);
                    }
                    return Err(StoreError::DuplicateRecipient);
                },
                None => {
                    self.tasks.push(
                        QueuedTask {
                            task: DeliveryTask {
                                newsletter_issue_id: issue_id,
                                subscriber_email: recipients[i].clone(),
                            },
                            in_flight: false,
                        },
                    );
                    proof {
                        let added = wanted[i as int];
                        assert(self@.tasks =~= current.tasks.push(added));
                        assert(wanted.take(i + 1) =~= wanted.take(i as int).push(added));
                        assert(self@.tasks =~= before.tasks + wanted.take(i + 1));
                        assert forall|a: int, b: int|
                            0 <= a < self@.tasks.len() && 0 <= b < self@.tasks.len() && a
                                != b implies self@.tasks[a] != self@.tasks[b] by {
                            if a < current.tasks.len() && b < current.tasks.len() {
                                assert(current.tasks[a] != current.tasks[b]);
                            } else if a < current.tasks.len() {
                                assert(self.tasks@[a].task@ == current.tasks[a]);
                            } else {
                                assert(self.tasks@[b].task@ == current.tasks[b]);
                            }
                        }
                    }
                },
            }
            i = i + 1;
        }
        proof {
            assert(wanted.take(i as int) =~= wanted);
            assert forall|k: int| 0 <= k < self@.tasks.len() implies has_issue(
                self@.issues,
                (#[trigger] self@.tasks[k]).issue_id,
            ) by {
                if k < before.tasks.len() {
                    assert(self@.tasks[k] == before.tasks[k]);
                } else {
                    assert(self@.tasks[k] == wanted[k - before.tasks.len()]);
                }
            }
        }
        Ok(i)
    }
}

/// The durable state: idempotency records, newsletter issues and the
/// delivery queue. It changes through the operations below and in no
/// other way.
#[derive(Debug)]
pub struct Database {
    idempotency: IdempotencyStore,
    issues: Vec<NewsletterIssue>,
    queue: Vec<QueuedTask>,
}

impl View for Database {
    type V = DatabaseView;

    closed spec fn view(&self) -> DatabaseView {
        DatabaseView {
            records: self.idempotency@,
            issues: issues_view(self.issues@),
            queue: queue_view(self.queue@),
        }
    }
}

impl Database {
    /// The stored data is consistent, as [`DatabaseView::wf`] says.
    pub closed spec fn wf(&self) -> bool {
        self.idempotency.wf() && self@.wf()
    }

    /// What [`Database::wf`] means for the stored values.
    pub proof fn lemma_wf(&self)
        requires
            self.wf(),
        ensures
            self@.wf(),
    {
    }

    /// A database that holds nothing.
    pub fn new() -> (res: Database)
        ensures
            res.wf(),
            res@ == DatabaseView::empty(),
    {
        let res = Database { idempotency: IdempotencyStore::new(), issues: Vec::new(), queue: Vec::new() };
        assert(res@.issues =~= Seq::empty());
        assert(res@.queue =~= Seq::empty());
        res
    }

    /// The number of stored issues.
    pub fn issue_count(&self) -> (res: usize)
        ensures
            res == self@.issues.len(),
    {
        self.issues.len()
    }

    /// The number of tasks in the delivery queue, pending or in flight.
    pub fn queue_len(&self) -> (res: usize)
        ensures
            res == self@.queue.len(),
    {
        self.queue.len()
    }

    /// The number of tasks of issue `issue_id` that are still in the
    /// queue, pending or in flight. An issue is delivered to everyone
    /// once this is zero.
    pub fn task_count_for(&self, issue_id: IssueId) -> (res: usize)
        ensures
            res == count_for_issue(self@.queue, issue_id.0),
    {
        let mut res: usize = 0;
        let mut i: usize = 0;
        assert(self@.queue.take(0) =~= Seq::empty());
        while i < self.queue.len()
            invariant
                i <= self.queue@.len(),
                res <= i,
                res == count_for_issue(self@.queue.take(i as int), issue_id.0),
            decreases self.queue@.len() - i,
        {
            proof {
                let all = self@.queue;
                assert(all.take(i + 1).drop_last() =~= all.take(i as int));
                assert(all.take(i + 1).last() == self.queue@[i as int]@);
            }
            if self.queue[i].task.newsletter_issue_id.0 == issue_id.0 {
                res = res + 1;
            }
            i = i + 1;
        }
        assert(self@.queue.take(i as int) =~= self@.queue);
        res
    }

    /// Copies of the stored issues, in the order in which they were
    /// published.
    pub fn issues(&self) -> (res: Vec<NewsletterIssue>)
        ensures
            issues_view(res@) == self@.issues,
    {
        let mut res: Vec<NewsletterIssue> = Vec::new();
        let mut i: usize = 0;
        while i < self.issues.len()
            invariant
                i <= self.issues@.len(),
                res@.len() == i,
                forall|j: int| 0 <= j < i ==> (#[trigger] res@[j])@ == self.issues@[j]@,
            decreases self.issues@.len() - i,
        {
            res.push(self.issues[i].duplicate());
            i = i + 1;
        }
        assert(issues_view(res@) =~= self@.issues);
        res
    }

    /// Copies of the tasks in the delivery queue, pending or in flight,
    /// in the order of the queue.
    pub fn queued_tasks(&self) -> (res: Vec<DeliveryTask>)
        ensures
            res@.len() == self@.queue.len(),
            forall|j: int| 0 <= j < res@.len() ==> (#[trigger] res@[j])@ == self@.queue[j].task,
    {
        let mut res: Vec<DeliveryTask> = Vec::new();
        let mut i: usize = 0;
        while i < self.queue.len()
            invariant
                i <= self.queue@.len(),
                res@.len() == i,
                forall|j: int| 0 <= j < i ==> (#[trigger] res@[j])@ == self.queue@[j].task@,
            decreases self.queue@.len() - i,
        {
            res.push(self.queue[i].task.duplicate());
            i = i + 1;
        }
        res
    }

    /// What is on record for `user_id` and `key`.
    pub fn record_state(&self, user_id: UserId, key: &IdempotencyKey) -> (res: RecordState)
        requires
            self.wf(),
        ensures
            match self@.admission(user_id.0, key@) {
                Admission::Admit => res is Absent,
                Admission::Pending => res is Reserved,
                Admission::Replay(saved) => res matches RecordState::Completed(response)
                    && response@ == saved,
            },
    {
        self.idempotency.lookup(user_id, key)
    }

    /// Records a reservation for `user_id` and `key` unless a record
    /// exists already, and says whether it did.
    pub fn reserve(&mut self, user_id: UserId, key: &IdempotencyKey) -> (inserted: bool)
        requires
            old(self).wf(),
        ensures
            final(self).wf(),
            inserted == (old(self)@.admission(user_id.0, key@) is Admit),
            inserted ==> final(self)@ == old(self)@.reserve(user_id.0, key@),
            !inserted ==> final(self)@ == old(self)@,
    {
        self.idempotency.reserve(user_id, key)
    }

    /// Makes the writes of `txn` durable and attaches `response` to the
    /// reservation of `user_id` and `key`, all at once. Where the
    /// reservation is missing or completed, or an issue of `txn` exists
    /// already, nothing is written.
    pub fn commit(
        &mut self,
        user_id: UserId,
        key: &IdempotencyKey,
        txn: Transaction,
        response: ResponseEnvelope,
    ) -> (res: Result<(), StoreError>)
        requires
            old(self).wf(),
            txn.wf(),
        ensures
            final(self).wf(),
            match res {
                Ok(()) => old(self)@.commit_error(user_id.0, key@, txn@) is None && final(self)@
                    == old(self)@.commit(user_id.0, key@, txn@, response@),
                Err(e) => old(self)@.commit_error(user_id.0, key@, txn@) == Some(e) && final(self)@ == old(self)@,
            },
    {
        match self.idempotency.lookup(user_id, key) {
            RecordState::Absent => {
                return Err(StoreError::ReservationMissing);
            },
            RecordState::Completed(_) => {
                return Err(StoreError::ResponseAlreadySaved);
            },
            RecordState::Reserved => {},
        }
        let mut i: usize = 0;
        while i < txn.issues.len()
            invariant
                i <= txn.issues@.len(),
                *self == *old(self),
                self.wf(),
                txn.wf(),
                self@.records.dom().contains((user_id.0, key@)),
                self@.records[(user_id.0, key@)] is None,
                forall|j: int|
                    0 <= j < i ==> !has_issue(self@.issues, (#[trigger] txn@.issues[j]).id),
            decreases txn.issues@.len() - i,
        {
            if contains_issue(&self.issues, txn.issues[i].newsletter_issue_id) {
                assert(has_issue(self@.issues, txn@.issues[i as int].id));
                return Err(StoreError::DuplicateIssue);
            }
            i = i + 1;
        }
        let ghost before = self@;
        let ghost staged = txn@;
        let ghost old_queue = self.queue@;
        let ghost new_tasks = txn.tasks@;
        let ghost old_issues = self.issues@;
        let ghost new_issues = txn.issues@;
        proof {
            lemma_commit_wf(before, user_id.0, key@, staged, response@);
        }
        let attached = self.idempotency.attach(user_id, key, response);
        assert(attached is Ok);
        let mut txn = txn;
        self.issues.append(&mut txn.issues);
        self.queue.append(&mut txn.tasks);
        proof {
            assert(self.issues@ == old_issues + new_issues);
            assert(self.queue@ == old_queue + new_tasks);
            assert(self@.issues =~= before.issues + staged.issues);
            assert(self@.queue =~= before.queue + crate::model::as_pending(staged.tasks));
        }
        Ok(())
    }

    /// The stored issue with the identifier `id`.
    pub fn issue(&self, id: IssueId) -> (res: Option<NewsletterIssue>)
        requires
            self.wf(),
        ensures
            match res {
                Some(issue) => issue@.id == id.0 && self@.issues.contains(issue@),
                None => !has_issue(self@.issues, id.0),
            },
    {
        let mut i: usize = 0;
        while i < self.issues.len()
            invariant
                i <= self.issues@.len(),
                forall|j: int| 0 <= j < i ==> (#[trigger] self@.issues[j]).id != id.0,
            decreases self.issues@.len() - i,
        {
            if self.issues[i].newsletter_issue_id.0 == id.0 {
                let found = self.issues[i].duplicate();
                assert(self@.issues[i as int] == found@);
                return Some(found);
            }
            i = i + 1;
        }
        None
    }

    /// Hands the first task that no worker holds to the caller and marks
    /// it as in flight, so that no other worker takes it.
    pub fn claim_next(&mut self) -> (res: Option<DeliveryTask>)
        requires
            old(self).wf(),
        ensures
            final(self).wf(),
            match res {
                Some(task) => has_pending(old(self)@.queue) && final(self)@ == old(self)@.claim()
                    && task@ == old(self)@.queue[old(self)@.next_pending()].task,
                None => !has_pending(old(self)@.queue) && final(self)@ == old(self)@,
            },
    {
        let mut i: usize = 0;
        while i < self.queue.len()
            invariant
                i <= self.queue@.len(),
                *self == *old(self),
                self.wf(),
                forall|j: int| 0 <= j < i ==> (#[trigger] self@.queue[j]).in_flight,
            decreases self.queue@.len() - i,
        {
            if !self.queue[i].in_flight {
                let ghost before = self@;
                let task = self.queue[i].task.duplicate();
                proof {
                    assert(is_next_pending(before.queue, i as int));
                    lemma_next_pending(before.queue, i as int);
                    lemma_claim_wf(before);
                    assert(before.next_pending() == i);
                }
                self.queue[i].in_flight = true;
                proof {
                    assert(self@.queue =~= before.claim().queue);
                    assert(self@.issues =~= before.issues);
                }
                return Some(task);
            }
            i = i + 1;
        }
        None
    }

    /// Whether a worker holds `task`.
    pub fn is_held(&self, task: &DeliveryTask) -> (res: bool)
        requires
            self.wf(),
        ensures
            res == is_in_flight(self@.queue, task@),
    {
        match find_task(&self.queue, task.newsletter_issue_id, &task.subscriber_email) {
            None => {
                assert forall|i: int| !is_in_flight_at(self@.queue, task@, i) by {
                    if 0 <= i < self@.queue.len() {
                        assert(self.queue@[i].task@ != task@);
                    }
                }
                false
            },
            Some(i) => {
                if self.queue[i].in_flight {
                    assert(is_in_flight_at(self@.queue, task@, i as int));
                    true
                } else {
                    assert forall|j: int| !is_in_flight_at(self@.queue, task@, j) by {
                        if 0 <= j < self@.queue.len() && j != i {
                            if j < i {
                                assert(self@.queue[j].task != self@.queue[i as int].task);
                            } else {
                                assert(self@.queue[i as int].task != self@.queue[j].task);
                            }
                        }
                    }
                    false
                }
            },
        }
    }

    /// Ends the delivery attempt of `task`, which a worker holds: after a
    /// transient failure the task is pending again, otherwise it is
    /// removed.
    pub fn settle(&mut self, task: &DeliveryTask, outcome: DeliveryOutcome) -> (res: Result<
        (),
        StoreError,
    >)
        requires
            old(self).wf(),
        ensures
            final(self).wf(),
            match res {
                Ok(()) => is_in_flight(old(self)@.queue, task@) && final(self)@ == old(self)@.settle(task@, outcome),
                Err(e) => e == StoreError::UnknownTask && !is_in_flight(old(self)@.queue, task@)
                    && final(self)@ == old(self)@,
            },
    {
        let ghost before = self@;
        match find_task(&self.queue, task.newsletter_issue_id, &task.subscriber_email) {
            None => {
                assert forall|i: int| !is_in_flight_at(before.queue, task@, i) by {
                    if 0 <= i < before.queue.len() {
                        assert(self.queue@[i].task@ != task@);
                    }
                }
                Err(StoreError::UnknownTask)
            },
            Some(i) => {
                if !self.queue[i].in_flight {
                    assert forall|j: int| !is_in_flight_at(before.queue, task@, j) by {
                        if 0 <= j < before.queue.len() && j != i {
                            if j < i {
                                assert(before.queue[j].task != before.queue[i as int].task);
                            } else {
                                assert(before.queue[i as int].task != before.queue[j].task);
                            }
                        }
                    }
                    return Err(StoreError::UnknownTask);
                }
                proof {
                    assert(is_in_flight_at(before.queue, task@, i as int));
                    lemma_in_flight_at(before.queue, task@, i as int);
                    lemma_settle_wf(before, task@, outcome);
                    assert((choose|j: int| is_in_flight_at(before.queue, task@, j)) == i);
                }
                match outcome {
                    DeliveryOutcome::TransientFailure => {
                        self.queue[i].in_flight = false;
                    },
                    _ => {
                        let _ = self.queue.remove(i);
                    },
                }
                proof {
                    assert(self@.queue =~= before.settle(task@, outcome).queue);
                    assert(self@.issues =~= before.issues);
                }
                Ok(())
            },
        }
    }
}

} // verus!
