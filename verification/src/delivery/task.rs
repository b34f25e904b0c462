//! Delivery tasks: one issue for one recipient.

use crate::issues::IssueId;
use crate::model::QueuedView;
use crate::model::TaskView;
use vstd::prelude::*;

verus! {

/// The order to deliver one issue to one recipient.
#[derive(Debug, PartialEq, Eq)]
pub struct DeliveryTask {
    pub newsletter_issue_id: IssueId,
    pub subscriber_email: String,
}

impl View for DeliveryTask {
    type V = TaskView;

    open spec fn view(&self) -> TaskView {
        TaskView { issue_id: self.newsletter_issue_id.0, recipient: self.subscriber_email@ }
    }
}

impl DeliveryTask {
    /// A copy of the delivery task.
    pub fn duplicate(&self) -> (res: DeliveryTask)
        ensures
            res@ == self@,
    {
        DeliveryTask {
            newsletter_issue_id: self.newsletter_issue_id,
            subscriber_email: self.subscriber_email.clone(),
        }
    }

    /// Whether this is the task of `issue_id` for `email`.
    pub fn is_for(&self, issue_id: IssueId, email: &String) -> (res: bool)
        ensures
            res == (self@ == TaskView { issue_id: issue_id.0, recipient: email@ }),
    {
        self.newsletter_issue_id.0 == issue_id.0 && self.subscriber_email == *email
    }
}

/// A task as it stands in the queue.
#[derive(Debug)]
pub struct QueuedTask {
    pub task: DeliveryTask,
    pub in_flight: bool,
}

impl View for QueuedTask {
    type V = QueuedView;

    open spec fn view(&self) -> QueuedView {
        QueuedView { task: self.task@, in_flight: self.in_flight }
    }
}

/// The entries of a vector, in its order.
pub open spec fn queue_view(queue: Seq<QueuedTask>) -> Seq<QueuedView> {
    Seq::new(queue.len(), |i: int| queue[i]@)
}

/// The tasks of a vector of entries, in its order.
pub open spec fn staged_view(queue: Seq<QueuedTask>) -> Seq<TaskView> {
    Seq::new(queue.len(), |i: int| queue[i].task@)
}

/// The position in `queue` of the task of `issue_id` for `email`.
pub fn find_task(queue: &Vec<QueuedTask>, issue_id: IssueId, email: &String) -> (res: Option<usize>)
    ensures
        match res {
            Some(i) => i < queue@.len() && queue@[i as int].task@ == (TaskView {
                issue_id: issue_id.0,
                recipient: email@,
            }),
            None => forall|i: int|
                0 <= i < queue@.len() ==> (#[trigger] queue@[i]).task@ != (TaskView {
                    issue_id: issue_id.0,
                    recipient: email@,
                }),
        },
{
    let mut i: usize = 0;
    while i < queue.len()
        invariant
            i <= queue@.len(),
            forall|j: int|
                0 <= j < i ==> (#[trigger] queue@[j]).task@ != (TaskView {
                    issue_id: issue_id.0,
                    recipient: email@,
                }),
        decreases queue@.len() - i,
    {
        if queue[i].task.is_for(issue_id, email) {
            return Some(i);
        }
        i = i + 1;
    }
    None
}

} // verus!
