use zero2prod::authentication::UserId;
use zero2prod::delivery::DeliveryTask;
use zero2prod::error::StoreError;
use zero2prod::idempotency::HeaderPair;
use zero2prod::idempotency::IdempotencyKey;
use zero2prod::idempotency::KeyError;
use zero2prod::idempotency::NextAction;
use zero2prod::idempotency::RecordState;
use zero2prod::idempotency::ResponseEnvelope;
use zero2prod::idempotency::get_saved_response;
use zero2prod::idempotency::next_action;
use zero2prod::idempotency::save_response;
use zero2prod::idempotency::see_other;
use zero2prod::idempotency::try_processing;
use zero2prod::issues::IssueId;
use zero2prod::routes::admin::newsletter::post::FormData;
use zero2prod::routes::admin::newsletter::post::FormError;
use zero2prod::routes::admin::newsletter::post::enqueue_delivery_tasks;
use zero2prod::routes::admin::newsletter::post::insert_newsletter_issue;
use zero2prod::routes::admin::newsletter::post::insert_newsletter_issue_as;
use zero2prod::routes::admin::newsletter::post::publish_newsletter;
use zero2prod::routes::admin::newsletter::post::publish_newsletter_as;
use zero2prod::routes::admin::newsletter::post::success_message;
use zero2prod::storage::Database;
use zero2prod::storage::Transaction;

fn form(key: &str) -> FormData {
    FormData::parse(
        "Newsletter title".to_string(),
        "Newsletter body as plain text".to_string(),
        "<p>Newsletter body as HTML</p>".to_string(),
        key.to_string(),
    )
    .unwrap()
}

fn key(raw: &str) -> IdempotencyKey {
    IdempotencyKey::parse(raw.to_string()).unwrap()
}

fn subscribers(n: usize) -> Vec<String> {
    (0..n).map(|i| format!("subscriber{}@example.com", i)).collect()
}

fn redirect() -> ResponseEnvelope {
    ResponseEnvelope {
        status_code: 303,
        headers: vec![HeaderPair {
            name: "location".to_string(),
            value: b"/admin/newsletter".to_vec(),
        }],
        body: Vec::new(),
    }
}

#[test]
fn newsletter_creation_is_idempotent() {
    let mut db = Database::new();
    let user = UserId(7);
    let confirmed = subscribers(1);
    let form = form("7c9e6679-7425-40de-944b-e07fc1f90ae7");

    let response = publish_newsletter(&mut db, &form, user, &confirmed, 1_700_000_000).unwrap();
    assert_eq!(response, redirect());
    assert_eq!(db.issue_count(), 1);
    assert_eq!(db.queue_len(), 1);

    let again = publish_newsletter(&mut db, &form, user, &confirmed, 1_700_000_100).unwrap();
    assert_eq!(again, response);
    assert_eq!(db.issue_count(), 1);
    assert_eq!(db.queue_len(), 1);
}

#[test]
fn publish_with_key_abc123_is_applied_once() {
    let mut db = Database::new();
    let user = UserId(1);
    let confirmed = subscribers(3);
    let form = form("abc123");

    let first = publish_newsletter(&mut db, &form, user, &confirmed, 10).unwrap();
    assert_eq!(first.status_code, 303);
    assert_eq!(first.body, Vec::<u8>::new());
    assert_eq!(db.issue_count(), 1);
    assert_eq!(db.queue_len(), 3);
    let issues = db.issues();
    assert_eq!(issues[0].title, "Newsletter title");
    assert_eq!(issues[0].text_content, "Newsletter body as plain text");
    assert_eq!(issues[0].html_content, "<p>Newsletter body as HTML</p>");
    assert_eq!(issues[0].published_at, 10);
    let tasks = db.queued_tasks();
    for (i, task) in tasks.iter().enumerate() {
        assert_eq!(task.newsletter_issue_id, issues[0].newsletter_issue_id);
        assert_eq!(task.subscriber_email, confirmed[i]);
    }

    let second = publish_newsletter(&mut db, &form, user, &confirmed, 20).unwrap();
    assert_eq!(second.status_code, first.status_code);
    assert_eq!(second.headers, first.headers);
    assert_eq!(second.body, first.body);
    assert_eq!(db.issue_count(), 1);
    assert_eq!(db.queue_len(), 3);
    assert_eq!(db.issues(), issues);
    assert_eq!(db.queued_tasks(), tasks);
}

#[test]
fn the_number_of_tasks_is_the_number_of_subscribers_at_publication() {
    let mut db = Database::new();
    let user = UserId(1);
    let at_publication = subscribers(4);
    publish_newsletter_as(&mut db, &form("k1"), user, IssueId(100), &at_publication, 0).unwrap();
    assert_eq!(db.queue_len(), 4);

    // a subscriber who is confirmed later gets the next issue only
    let later = subscribers(5);
    publish_newsletter_as(&mut db, &form("k1"), user, IssueId(101), &later, 0).unwrap();
    assert_eq!(db.queue_len(), 4);
    publish_newsletter_as(&mut db, &form("k2"), user, IssueId(102), &later, 0).unwrap();
    let tasks = db.queued_tasks();
    assert_eq!(tasks.iter().filter(|t| t.newsletter_issue_id == IssueId(100)).count(), 4);
    assert_eq!(tasks.iter().filter(|t| t.newsletter_issue_id == IssueId(101)).count(), 0);
    assert_eq!(tasks.iter().filter(|t| t.newsletter_issue_id == IssueId(102)).count(), 5);
}

#[test]
fn publishing_without_subscribers_stores_the_issue_only() {
    let mut db = Database::new();
    let response =
        publish_newsletter_as(&mut db, &form("k"), UserId(1), IssueId(1), &Vec::new(), 0).unwrap();
    assert_eq!(response, redirect());
    assert_eq!(db.issue_count(), 1);
    assert_eq!(db.queue_len(), 0);
}

#[test]
fn the_same_key_of_two_operators_is_two_requests() {
    let mut db = Database::new();
    let confirmed = subscribers(2);
    publish_newsletter_as(&mut db, &form("k"), UserId(1), IssueId(1), &confirmed, 0).unwrap();
    publish_newsletter_as(&mut db, &form("k"), UserId(2), IssueId(2), &confirmed, 0).unwrap();
    assert_eq!(db.issue_count(), 2);
    assert_eq!(db.queue_len(), 4);
}

#[test]
fn keys_are_case_sensitive() {
    let mut db = Database::new();
    publish_newsletter_as(&mut db, &form("key"), UserId(1), IssueId(1), &subscribers(1), 0)
        .unwrap();
    publish_newsletter_as(&mut db, &form("KEY"), UserId(1), IssueId(2), &subscribers(1), 0)
        .unwrap();
    assert_eq!(db.issue_count(), 2);
}

#[test]
fn try_processing_admits_the_first_request_only() {
    let mut db = Database::new();
    let user = UserId(9);
    let k = key("once");
    assert_eq!(db.record_state(user, &k), RecordState::Absent);
    let first = try_processing(&mut db, &k, user).unwrap();
    assert!(matches!(first, NextAction::StartProcessing(_)));
    assert_eq!(db.record_state(user, &k), RecordState::Reserved);
    assert!(get_saved_response(&db, &k, user).is_none());

    // the holder has not completed: the second request has to wait
    let second = try_processing(&mut db, &k, user);
    assert!(matches!(second, Err(StoreError::ReservationPending)));
    assert_eq!(db.record_state(user, &k), RecordState::Reserved);
}

#[test]
fn a_reservation_that_was_never_completed_blocks_the_key() {
    let mut db = Database::new();
    let user = UserId(9);
    let k = key("stuck");
    let admitted = try_processing(&mut db, &k, user).unwrap();
    drop(admitted);
    for _ in 0..3 {
        assert!(matches!(try_processing(&mut db, &k, user), Err(StoreError::ReservationPending)));
    }
    assert_eq!(db.issue_count(), 0);
}

#[test]
fn save_response_commits_issue_tasks_and_response_together() {
    let mut db = Database::new();
    let user = UserId(3);
    let k = key("atomic");
    let mut txn = match try_processing(&mut db, &k, user).unwrap() {
        NextAction::StartProcessing(txn) => txn,
        NextAction::ReturnSavedResponse(_) => panic!("nothing was saved yet"),
    };
    let id = insert_newsletter_issue(&mut txn, "T", "text", "<p>html</p>", 5).unwrap();
    let n = enqueue_delivery_tasks(&mut txn, id, &subscribers(2)).unwrap();
    assert_eq!(n, 2);
    // nothing is durable before the commit
    assert_eq!(db.issue_count(), 0);
    assert_eq!(db.queue_len(), 0);

    let saved = save_response(&mut db, txn, &k, user, see_other("/admin/newsletter")).unwrap();
    assert_eq!(saved, redirect());
    assert_eq!(db.issue_count(), 1);
    assert_eq!(db.queue_len(), 2);
    assert_eq!(db.record_state(user, &k), RecordState::Completed(redirect()));
    assert_eq!(get_saved_response(&db, &k, user), Some(redirect()));
    assert_eq!(
        db.queued_tasks()[1],
        DeliveryTask { newsletter_issue_id: id, subscriber_email: "subscriber1@example.com".to_string() }
    );
}

#[test]
fn save_response_without_reservation_is_refused() {
    let mut db = Database::new();
    let mut txn = Transaction::new();
    insert_newsletter_issue_as(&mut txn, IssueId(1), "T", "t", "h", 0).unwrap();
    let res = save_response(&mut db, txn, &key("missing"), UserId(1), see_other("/"));
    assert_eq!(res, Err(StoreError::ReservationMissing));
    assert_eq!(db.issue_count(), 0);
    assert_eq!(db.record_state(UserId(1), &key("missing")), RecordState::Absent);
}

#[test]
fn a_saved_response_is_never_overwritten() {
    let mut db = Database::new();
    let user = UserId(1);
    let first = publish_newsletter_as(&mut db, &form("k"), user, IssueId(1), &subscribers(1), 0)
        .unwrap();
    let mut txn = Transaction::new();
    insert_newsletter_issue_as(&mut txn, IssueId(2), "T", "t", "h", 0).unwrap();
    let other = ResponseEnvelope { status_code: 200, headers: Vec::new(), body: b"other".to_vec() };
    let res = save_response(&mut db, txn, &key("k"), user, other);
    assert_eq!(res, Err(StoreError::ResponseAlreadySaved));
    assert_eq!(db.issue_count(), 1);
    assert_eq!(get_saved_response(&db, &key("k"), user), Some(first));
}

#[test]
fn an_issue_identifier_is_used_once() {
    let mut db = Database::new();
    let user = UserId(1);
    publish_newsletter_as(&mut db, &form("k1"), user, IssueId(1), &subscribers(1), 0).unwrap();
    let res = publish_newsletter_as(&mut db, &form("k2"), user, IssueId(1), &subscribers(1), 0);
    assert_eq!(res, Err(StoreError::DuplicateIssue));
    assert_eq!(db.issue_count(), 1);
    assert_eq!(db.queue_len(), 1);
    // the refused request leaves its reservation behind
    assert_eq!(db.record_state(user, &key("k2")), RecordState::Reserved);

    let mut txn = Transaction::new();
    insert_newsletter_issue_as(&mut txn, IssueId(5), "T", "t", "h", 0).unwrap();
    let twice = insert_newsletter_issue_as(&mut txn, IssueId(5), "T", "t", "h", 0);
    assert_eq!(twice, Err(StoreError::DuplicateIssue));
}

#[test]
fn a_recipient_gets_one_task_per_issue() {
    let mut db = Database::new();
    let twice = vec!["a@example.com".to_string(), "b@example.com".to_string(), "a@example.com".to_string()];
    let res = publish_newsletter_as(&mut db, &form("k"), UserId(1), IssueId(1), &twice, 0);
    assert_eq!(res, Err(StoreError::DuplicateRecipient));
    assert_eq!(db.issue_count(), 0);
    assert_eq!(db.queue_len(), 0);

    let mut txn = Transaction::new();
    let id = insert_newsletter_issue_as(&mut txn, IssueId(1), "T", "t", "h", 0).unwrap();
    assert_eq!(enqueue_delivery_tasks(&mut txn, id, &subscribers(2)), Ok(2));
    assert_eq!(enqueue_delivery_tasks(&mut txn, id, &subscribers(1)), Err(StoreError::DuplicateRecipient));
}

#[test]
fn tasks_need_an_issue_of_the_same_transaction() {
    let mut txn = Transaction::new();
    let res = enqueue_delivery_tasks(&mut txn, IssueId(77), &subscribers(1));
    assert_eq!(res, Err(StoreError::UnknownIssue));
}

#[test]
fn fresh_issue_identifiers_differ() {
    let mut txn = Transaction::new();
    let a = insert_newsletter_issue(&mut txn, "A", "a", "a", 0).unwrap();
    let b = insert_newsletter_issue(&mut txn, "B", "b", "b", 0).unwrap();
    assert_ne!(a, b);
}

#[test]
fn next_action_follows_the_store() {
    assert!(matches!(next_action(1, None), Ok(NextAction::StartProcessing(_))));
    assert!(matches!(next_action(1, Some(redirect())), Ok(NextAction::StartProcessing(_))));
    match next_action(0, Some(redirect())) {
        Ok(NextAction::ReturnSavedResponse(saved)) => assert_eq!(saved, redirect()),
        other => panic!("unexpected: {:?}", other),
    }
    assert!(matches!(next_action(0, None), Err(StoreError::ReservationPending)));
}

#[test]
fn newsletter_redirects_with_flash_message_for_invalid_data() {
    let title = "Newsletter title".to_string();
    let text = "Newsletter body as plain text".to_string();
    let html = "<p>Newsletter body as HTML</p>".to_string();
    let key = "3f2c".to_string();
    let cases = vec![
        (String::new(), text.clone(), html.clone(), key.clone(), FormError::EmptyTitle),
        (title.clone(), String::new(), html.clone(), key.clone(), FormError::EmptyTextContent),
        (title.clone(), text.clone(), String::new(), key.clone(), FormError::EmptyHtmlContent),
        (title.clone(), text.clone(), html.clone(), String::new(), FormError::InvalidKey(KeyError::Empty)),
        (title.clone(), text.clone(), html.clone(), "k".repeat(51), FormError::InvalidKey(KeyError::TooLong)),
        (String::new(), String::new(), String::new(), String::new(), FormError::EmptyTitle),
    ];
    for (title, text, html, key, expected) in cases {
        assert_eq!(FormData::parse(title, text, html, key).unwrap_err(), expected);
    }
}

#[test]
fn a_valid_form_is_taken_over_unchanged() {
    let form = form("abc123");
    assert_eq!(form.title.as_ref(), "Newsletter title");
    assert_eq!(form.text_content.as_ref(), "Newsletter body as plain text");
    assert_eq!(form.html_content.as_ref(), "<p>Newsletter body as HTML</p>");
    assert_eq!(form.idempotency_key.as_str(), "abc123");
}

#[test]
fn the_operator_is_told_that_the_issue_was_accepted() {
    assert_eq!(
        success_message(),
        "The newsletter issue has been accepted - emails will go out shortly."
    );
}

#[test]
fn every_refusal_of_the_store_has_its_words() {
    let all = [
        (StoreError::ReservationPending, "the idempotency key is reserved by a request that has not completed"),
        (StoreError::ReservationMissing, "no reservation exists for the idempotency key"),
        (StoreError::ResponseAlreadySaved, "a response is saved for the idempotency key already"),
        (StoreError::DuplicateIssue, "an issue with this identifier exists already"),
        (StoreError::UnknownIssue, "the issue was not inserted in this transaction"),
        (StoreError::DuplicateRecipient, "a recipient occurs twice among the tasks of one issue"),
        (StoreError::UnknownTask, "no such task is being delivered"),
    ];
    for (error, words) in all {
        assert_eq!(error.message(), words);
    }
}
