use zero2prod::authentication::UserId;
use zero2prod::delivery::DeliveryOutcome;
use zero2prod::delivery::DeliveryTask;
use zero2prod::delivery::ExecutionOutcome;
use zero2prod::delivery::try_execute_task;
use zero2prod::delivery::worker::Delivery;
use zero2prod::delivery::worker::Recipient;
use zero2prod::delivery::worker::classify_recipient;
use zero2prod::delivery::worker::complete_task;
use zero2prod::delivery::worker::dequeue_task;
use zero2prod::delivery::worker::execution_outcome;
use zero2prod::delivery::worker::removes_task;
use zero2prod::error::StoreError;
use zero2prod::issues::IssueId;
use zero2prod::issues::NewsletterIssue;
use zero2prod::routes::admin::newsletter::post::FormData;
use zero2prod::routes::admin::newsletter::post::publish_newsletter_as;
use zero2prod::storage::Database;

fn published(recipients: &[&str]) -> Database {
    let mut db = Database::new();
    let form = FormData::parse(
        "Title".to_string(),
        "text".to_string(),
        "<p>html</p>".to_string(),
        "key".to_string(),
    )
    .unwrap();
    let confirmed: Vec<String> = recipients.iter().map(|r| r.to_string()).collect();
    publish_newsletter_as(&mut db, &form, UserId(1), IssueId(42), &confirmed, 0).unwrap();
    db
}

fn recipients_of(db: &Database) -> Vec<String> {
    db.queued_tasks().into_iter().map(|t| t.subscriber_email).collect()
}

#[test]
fn newsletters_are_delivered_to_confirmed_subscribers() {
    let mut db = published(&["ursula_le_guin@gmail.com"]);
    let delivery = dequeue_task(&mut db).unwrap();
    assert_eq!(delivery.task.subscriber_email, "ursula_le_guin@gmail.com");
    assert_eq!(delivery.task.newsletter_issue_id, IssueId(42));
    assert_eq!(delivery.issue.newsletter_issue_id, IssueId(42));
    assert_eq!(delivery.issue.title, "Title");
    assert_eq!(delivery.issue.html_content, "<p>html</p>");
    assert_eq!(delivery.issue.text_content, "text");
    let ended = complete_task(&mut db, &delivery, DeliveryOutcome::Delivered);
    assert_eq!(ended, Ok(ExecutionOutcome::TaskCompleted));
    assert_eq!(db.queue_len(), 0);
    assert_eq!(try_execute_task(&mut db, DeliveryOutcome::Delivered), ExecutionOutcome::EmptyQueue);
}

#[test]
fn newsletters_are_not_delivered_to_unconfirmed_subscribers() {
    // nobody is confirmed: the issue is stored, and no delivery is due
    let mut db = published(&[]);
    assert_eq!(db.issue_count(), 1);
    assert!(dequeue_task(&mut db).is_none());
    assert_eq!(try_execute_task(&mut db, DeliveryOutcome::Delivered), ExecutionOutcome::EmptyQueue);
}

#[test]
fn an_empty_queue_makes_the_pass_a_no_op() {
    let mut db = Database::new();
    assert_eq!(
        try_execute_task(&mut db, DeliveryOutcome::TransientFailure),
        ExecutionOutcome::EmptyQueue
    );
    assert_eq!(db.queue_len(), 0);
    assert_eq!(db.issue_count(), 0);
}

#[test]
fn tasks_are_taken_in_the_order_of_the_queue() {
    let mut db = published(&["a@example.com", "b@example.com", "c@example.com"]);
    assert_eq!(try_execute_task(&mut db, DeliveryOutcome::Delivered), ExecutionOutcome::TaskCompleted);
    assert_eq!(recipients_of(&db), vec!["b@example.com", "c@example.com"]);
    assert_eq!(try_execute_task(&mut db, DeliveryOutcome::Delivered), ExecutionOutcome::TaskCompleted);
    assert_eq!(recipients_of(&db), vec!["c@example.com"]);
    assert_eq!(try_execute_task(&mut db, DeliveryOutcome::Delivered), ExecutionOutcome::TaskCompleted);
    assert_eq!(db.queue_len(), 0);
}

#[test]
fn a_permanent_failure_removes_the_task_and_leaves_the_others() {
    let mut db = published(&["a@example.com", "b@example.com", "c@example.com"]);
    assert_eq!(
        try_execute_task(&mut db, DeliveryOutcome::PermanentFailure),
        ExecutionOutcome::TaskSkipped
    );
    assert_eq!(recipients_of(&db), vec!["b@example.com", "c@example.com"]);
    // the next pass goes on with the task behind it
    assert_eq!(try_execute_task(&mut db, DeliveryOutcome::Delivered), ExecutionOutcome::TaskCompleted);
    assert_eq!(recipients_of(&db), vec!["c@example.com"]);
}

#[test]
fn an_invalid_stored_address_is_skipped_without_asking_the_gateway() {
    let mut db = published(&["not-an-address", "b@example.com"]);
    // even if the gateway would accept the email, the task is skipped
    assert_eq!(try_execute_task(&mut db, DeliveryOutcome::Delivered), ExecutionOutcome::TaskSkipped);
    assert_eq!(recipients_of(&db), vec!["b@example.com"]);
    let mut db = published(&["not-an-address", "b@example.com"]);
    assert_eq!(
        try_execute_task(&mut db, DeliveryOutcome::TransientFailure),
        ExecutionOutcome::TaskSkipped
    );
    assert_eq!(recipients_of(&db), vec!["b@example.com"]);
}

#[test]
fn a_transient_failure_keeps_the_task_for_a_later_pass() {
    let mut db = published(&["a@example.com", "b@example.com"]);
    let before = db.queued_tasks();
    assert_eq!(
        try_execute_task(&mut db, DeliveryOutcome::TransientFailure),
        ExecutionOutcome::TaskDeferred
    );
    assert_eq!(db.queued_tasks(), before);
    // the task is pending again: the next pass takes it
    let retried = dequeue_task(&mut db).unwrap();
    assert_eq!(retried.task.subscriber_email, "a@example.com");
    assert_eq!(
        complete_task(&mut db, &retried, DeliveryOutcome::Delivered),
        Ok(ExecutionOutcome::TaskCompleted)
    );
    assert_eq!(recipients_of(&db), vec!["b@example.com"]);
}

#[test]
fn two_workers_never_hold_the_same_task() {
    let mut db = published(&["a@example.com", "b@example.com"]);
    let first = dequeue_task(&mut db).unwrap();
    assert!(db.is_held(&first.task));
    assert!(!db.is_held(&db.queued_tasks()[1]));
    let second = dequeue_task(&mut db).unwrap();
    assert!(db.is_held(&second.task));
    assert_eq!(first.task.subscriber_email, "a@example.com");
    assert_eq!(second.task.subscriber_email, "b@example.com");
    // every task is held: a third worker finds nothing
    assert!(dequeue_task(&mut db).is_none());
    assert_eq!(db.queue_len(), 2);

    assert_eq!(
        complete_task(&mut db, &second, DeliveryOutcome::Delivered),
        Ok(ExecutionOutcome::TaskCompleted)
    );
    assert_eq!(
        complete_task(&mut db, &first, DeliveryOutcome::TransientFailure),
        Ok(ExecutionOutcome::TaskDeferred)
    );
    assert_eq!(recipients_of(&db), vec!["a@example.com"]);
    assert!(!db.is_held(&first.task));
    assert!(!db.is_held(&second.task));
    let again = dequeue_task(&mut db).unwrap();
    assert_eq!(again.task.subscriber_email, "a@example.com");
}

#[test]
fn a_task_that_no_worker_holds_cannot_be_completed() {
    let mut db = published(&["a@example.com"]);
    let issue = db.issue(IssueId(42)).unwrap();
    let pending = Delivery {
        task: DeliveryTask {
            newsletter_issue_id: IssueId(42),
            subscriber_email: "a@example.com".to_string(),
        },
        issue,
    };
    assert_eq!(
        complete_task(&mut db, &pending, DeliveryOutcome::Delivered),
        Err(StoreError::UnknownTask)
    );
    assert_eq!(db.queue_len(), 1);

    let unknown = Delivery {
        task: DeliveryTask {
            newsletter_issue_id: IssueId(42),
            subscriber_email: "nobody@example.com".to_string(),
        },
        issue: NewsletterIssue {
            newsletter_issue_id: IssueId(42),
            title: String::new(),
            text_content: String::new(),
            html_content: String::new(),
            published_at: 0,
        },
    };
    assert_eq!(
        complete_task(&mut db, &unknown, DeliveryOutcome::Delivered),
        Err(StoreError::UnknownTask)
    );
}

#[test]
fn an_issue_is_found_by_its_identifier() {
    let db = published(&[]);
    assert_eq!(db.issue(IssueId(42)).unwrap().title, "Title");
    assert!(db.issue(IssueId(43)).is_none());
}

#[test]
fn stored_addresses_are_told_apart_once() {
    match classify_recipient("ursula_le_guin@gmail.com") {
        Recipient::Valid(email) => assert_eq!(email.as_ref(), "ursula_le_guin@gmail.com"),
        Recipient::Invalid(reason) => panic!("{}", reason),
    }
    match classify_recipient("abc.com") {
        Recipient::Valid(_) => panic!("abc.com is no address"),
        Recipient::Invalid(reason) => {
            assert_eq!(reason, "abc.com is not a valid subscriber email.")
        }
    }
}

#[test]
fn only_a_transient_failure_keeps_a_task() {
    assert!(removes_task(DeliveryOutcome::Delivered));
    assert!(removes_task(DeliveryOutcome::PermanentFailure));
    assert!(!removes_task(DeliveryOutcome::TransientFailure));
    assert_eq!(execution_outcome(DeliveryOutcome::Delivered), ExecutionOutcome::TaskCompleted);
    assert_eq!(execution_outcome(DeliveryOutcome::PermanentFailure), ExecutionOutcome::TaskSkipped);
    assert_eq!(execution_outcome(DeliveryOutcome::TransientFailure), ExecutionOutcome::TaskDeferred);
}

#[test]
fn the_tasks_of_an_issue_are_counted_until_none_is_left() {
    let mut db = published(&["a@example.com", "b@example.com", "c@example.com"]);
    assert_eq!(db.task_count_for(IssueId(42)), 3);
    assert_eq!(db.task_count_for(IssueId(43)), 0);
    try_execute_task(&mut db, DeliveryOutcome::Delivered);
    assert_eq!(db.task_count_for(IssueId(42)), 2);
    try_execute_task(&mut db, DeliveryOutcome::TransientFailure);
    assert_eq!(db.task_count_for(IssueId(42)), 2);
    try_execute_task(&mut db, DeliveryOutcome::PermanentFailure);
    try_execute_task(&mut db, DeliveryOutcome::Delivered);
    assert_eq!(db.task_count_for(IssueId(42)), 0);
    assert_eq!(db.issue_count(), 1);
}
