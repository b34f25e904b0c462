use zero2prod::authentication::UserId;
use zero2prod::delivery::DeliveryOutcome;
use zero2prod::delivery::ExecutionOutcome;
use zero2prod::delivery::try_execute_task;
use zero2prod::error::StoreError;
use zero2prod::idempotency::IdempotencyKey;
use zero2prod::idempotency::NextAction;
use zero2prod::idempotency::save_response;
use zero2prod::idempotency::see_other;
use zero2prod::idempotency::try_processing;
use zero2prod::routes::admin::newsletter::post::enqueue_delivery_tasks;
use zero2prod::routes::admin::newsletter::post::insert_newsletter_issue;
use zero2prod::storage::Database;

fn key(raw: &str) -> IdempotencyKey {
    IdempotencyKey::parse(raw.to_string()).unwrap()
}

#[test]
fn concurrent_form_submission_is_handled_gracefully() {
    let mut db = Database::new();
    let user = UserId(1);
    let k = key("f3b9a2");
    let confirmed = vec!["ursula_le_guin@gmail.com".to_string()];

    // the first request is admitted and is slow to finish
    let mut txn = match try_processing(&mut db, &k, user).unwrap() {
        NextAction::StartProcessing(txn) => txn,
        NextAction::ReturnSavedResponse(_) => panic!("the first request must be admitted"),
    };
    // meanwhile the second request arrives: it has to wait for the first
    assert!(matches!(try_processing(&mut db, &k, user), Err(StoreError::ReservationPending)));

    let id = insert_newsletter_issue(&mut txn, "X", "text", "<p>html</p>", 0).unwrap();
    enqueue_delivery_tasks(&mut txn, id, &confirmed).unwrap();
    assert!(matches!(try_processing(&mut db, &k, user), Err(StoreError::ReservationPending)));
    let first = save_response(&mut db, txn, &k, user, see_other("/admin/newsletter")).unwrap();

    // the first request has committed: the second sees its outcome
    let second = match try_processing(&mut db, &k, user).unwrap() {
        NextAction::ReturnSavedResponse(saved) => saved,
        NextAction::StartProcessing(_) => panic!("the second request must not be admitted"),
    };
    assert_eq!(first.status_code, second.status_code);
    assert_eq!(first.body, second.body);
    assert_eq!(first, second);
    assert_eq!(db.issue_count(), 1);
    assert_eq!(db.issues()[0].title, "X");

    // exactly one email is sent
    let mut sent = 0;
    while try_execute_task(&mut db, DeliveryOutcome::Delivered) == ExecutionOutcome::TaskCompleted {
        sent += 1;
    }
    assert_eq!(sent, 1);
}

#[test]
fn requests_under_other_keys_do_not_wait() {
    let mut db = Database::new();
    let user = UserId(1);
    let held = try_processing(&mut db, &key("a"), user).unwrap();
    assert!(matches!(held, NextAction::StartProcessing(_)));
    assert!(matches!(
        try_processing(&mut db, &key("b"), user).unwrap(),
        NextAction::StartProcessing(_)
    ));
    assert!(matches!(
        try_processing(&mut db, &key("a"), UserId(2)).unwrap(),
        NextAction::StartProcessing(_)
    ));
}

#[test]
fn workers_and_requests_interleave() {
    let mut db = Database::new();
    let user = UserId(1);
    let mut txn_a = match try_processing(&mut db, &key("a"), user).unwrap() {
        NextAction::StartProcessing(txn) => txn,
        NextAction::ReturnSavedResponse(_) => panic!("admitted"),
    };
    let mut txn_b = match try_processing(&mut db, &key("b"), user).unwrap() {
        NextAction::StartProcessing(txn) => txn,
        NextAction::ReturnSavedResponse(_) => panic!("admitted"),
    };
    let a = insert_newsletter_issue(&mut txn_a, "A", "a", "a", 0).unwrap();
    let b = insert_newsletter_issue(&mut txn_b, "B", "b", "b", 0).unwrap();
    enqueue_delivery_tasks(&mut txn_a, a, &vec!["x@example.com".to_string()]).unwrap();
    enqueue_delivery_tasks(&mut txn_b, b, &vec!["x@example.com".to_string()]).unwrap();
    // nothing is committed: a worker finds no task
    assert_eq!(try_execute_task(&mut db, DeliveryOutcome::Delivered), ExecutionOutcome::EmptyQueue);
    save_response(&mut db, txn_b, &key("b"), user, see_other("/admin/newsletter")).unwrap();
    assert_eq!(db.queued_tasks()[0].newsletter_issue_id, b);
    assert_eq!(try_execute_task(&mut db, DeliveryOutcome::Delivered), ExecutionOutcome::TaskCompleted);
    save_response(&mut db, txn_a, &key("a"), user, see_other("/admin/newsletter")).unwrap();
    assert_eq!(db.queued_tasks()[0].newsletter_issue_id, a);
    assert_eq!(db.issue_count(), 2);
}
