//! Publishing a newsletter issue exactly once per idempotency key.

use crate::authentication::UserId;
use crate::error::StoreError;
use crate::idempotency::key::IdempotencyKey;
use crate::idempotency::key::KeyError;
use crate::idempotency::key::is_valid_key;
use crate::idempotency::persistence::NextAction;
use crate::idempotency::persistence::save_response;
use crate::idempotency::persistence::try_processing;
use crate::idempotency::response::EnvelopeView;
use crate::idempotency::response::ResponseEnvelope;
use crate::idempotency::response::see_other;
use crate::issues::IssueId;
use crate::issues::NewsletterIssue;
use crate::model::IssueView;
use crate::model::has_issue;
use crate::storage::Database;
use crate::storage::Transaction;
use crate::storage::strings_view;
use crate::trusted::random_uuid;
use crate::util::NonEmptyString;
use vstd::prelude::*;

verus! {

/// The fields of the publish form, validated.
#[derive(Debug)]
pub struct FormData {
    pub title: NonEmptyString,
    pub text_content: NonEmptyString,
    pub html_content: NonEmptyString,
    pub idempotency_key: IdempotencyKey,
}

/// Why the publish form was rejected.
#[derive(Clone, Copy, Debug, PartialEq, Eq, Structural)]
pub enum FormError {
    /// The title is empty.
    EmptyTitle,
    /// The plain-text body is empty.
    EmptyTextContent,
    /// The HTML body is empty.
    EmptyHtmlContent,
    /// The idempotency key is empty or too long.
    InvalidKey(KeyError),
}

impl FormError {
    /// The rejection in words.
    pub fn message(&self) -> (res: String)
        ensures
            res@ == match *self {
                FormError::EmptyTitle => "field `title` cannot be empty"@,
                FormError::EmptyTextContent => "field `text_content` cannot be empty"@,
                FormError::EmptyHtmlContent => "field `html_content` cannot be empty"@,
                FormError::InvalidKey(KeyError::Empty) => "the idempotency key cannot be empty"@,
                FormError::InvalidKey(KeyError::TooLong) => "the idempotency key must be shorter than 50 characters"@,
            },
    {
        match self {
            FormError::EmptyTitle => "field `title` cannot be empty".to_string(),
            FormError::EmptyTextContent => "field `text_content` cannot be empty".to_string(),
            FormError::EmptyHtmlContent => "field `html_content` cannot be empty".to_string(),
            FormError::InvalidKey(e) => e.message(),
        }
    }
}

/// The first fault of the form's fields, in the order title, plain text,
/// HTML, idempotency key; `None` where all are valid.
pub open spec fn form_error(
    title: Seq<char>,
    text_content: Seq<char>,
    html_content: Seq<char>,
    idempotency_key: Seq<char>,
) -> Option<FormError> {
    if title.len() == 0 {
        Some(FormError::EmptyTitle)
    } else if text_content.len() == 0 {
        Some(FormError::EmptyTextContent)
    } else if html_content.len() == 0 {
        Some(FormError::EmptyHtmlContent)
    } else if idempotency_key.len() == 0 {
        Some(FormError::InvalidKey(KeyError::Empty))
    } else if !is_valid_key(idempotency_key) {
        Some(FormError::InvalidKey(KeyError::TooLong))
    } else {
        None
    }
}

impl FormData {
    /// Validates the fields of a publish form. The fields are taken over
    /// unchanged; the first field that is not valid is reported.
    pub fn parse(
        title: String,
        text_content: String,
        html_content: String,
        idempotency_key: String,
    ) -> (res: Result<FormData, FormError>)
        ensures
            match res {
                Ok(form) => form_error(title@, text_content@, html_content@, idempotency_key@)
                    is None && form.title@ == title@ && form.text_content@ == text_content@
                    && form.html_content@ == html_content@ && form.idempotency_key@
                    == idempotency_key@,
                Err(e) => form_error(title@, text_content@, html_content@, idempotency_key@)
                    == Some(e),
            },
    {
        let title = match NonEmptyString::try_from(title) {
            Ok(value) => value,
            Err(_) => {
                return Err(FormError::EmptyTitle);
            },
        };
        let text_content = match NonEmptyString::try_from(text_content) {
            Ok(value) => value,
            Err(_) => {
                return Err(FormError::EmptyTextContent);
            },
        };
        let html_content = match NonEmptyString::try_from(html_content) {
            Ok(value) => value,
            Err(_) => {
                return Err(FormError::EmptyHtmlContent);
            },
        };
        let idempotency_key = match IdempotencyKey::parse(idempotency_key) {
            Ok(value) => value,
            Err(e) => {
                return Err(FormError::InvalidKey(e));
            },
        };
        Ok(FormData { title, text_content, html_content, idempotency_key })
    }
}

/// The issue that a form describes, under the identifier `id`.
pub open spec fn issue_of(form: FormData, id: u128, published_at: i64) -> IssueView {
    IssueView {
        id,
        title: form.title@,
        text_content: form.text_content@,
        html_content: form.html_content@,
        published_at,
    }
}

/// A result with its response as mathematical values.
pub open spec fn answer_view(res: Result<ResponseEnvelope, StoreError>) -> Result<
    EnvelopeView,
    StoreError,
> {
    match res {
        Ok(response) => Ok(response@),
        Err(e) => Err(e),
    }
}

/// What the operator is told after publishing.
pub fn success_message() -> (res: String)
    ensures
        res@ == "The newsletter issue has been accepted - emails will go out shortly."@,
{
    "The newsletter issue has been accepted - emails will go out shortly.".to_string()
}

/// Writes an issue with the identifier `id` in `transaction`. Fails,
/// writing nothing, where the transaction holds an issue with that
/// identifier already.
pub fn insert_newsletter_issue_as(
    transaction: &mut Transaction,
    id: IssueId,
    title: &str,
    text_content: &str,
    html_content: &str,
    published_at: i64,
) -> (res: Result<IssueId, StoreError>)
    requires
        old(transaction).wf(),
    ensures
        final(transaction).wf(),
        match res {
            Ok(issue_id) => issue_id == id && !has_issue(old(transaction)@.issues, id.0) && final(transaction)@ == old(transaction)@.stage_issue(
                IssueView {
                    id: id.0,
                    title: title@,
                    text_content: text_content@,
                    html_content: html_content@,
                    published_at,
                },
            ),
            Err(e) => e == StoreError::DuplicateIssue && has_issue(old(transaction)@.issues, id.0)
                && final(transaction)@ == old(transaction)@,
        },
{
    let issue = NewsletterIssue {
        newsletter_issue_id: id,
        title: title.to_string(),
        text_content: text_content.to_string(),
        html_content: html_content.to_string(),
        published_at,
    };
    match transaction.stage_issue(issue) {
        Ok(()) => Ok(id),
        Err(e) => Err(e),
    }
}

/// Writes an issue in `transaction` under a fresh random identifier and
/// returns the identifier. Whatever identifier is drawn, the issue is
/// written under it unless the transaction holds an issue with that
/// identifier already; in a transaction that holds no issue yet, the
/// issue is always written.
pub fn insert_newsletter_issue(
    transaction: &mut Transaction,
    title: &str,
    text_content: &str,
    html_content: &str,
    published_at: i64,
) -> (res: Result<IssueId, StoreError>)
    requires
        old(transaction).wf(),
    ensures
        final(transaction).wf(),
        match res {
            Ok(issue_id) => !has_issue(old(transaction)@.issues, issue_id.0) && final(transaction)@ == old(transaction)@.stage_issue(
                IssueView {
                    id: issue_id.0,
                    title: title@,
                    text_content: text_content@,
                    html_content: html_content@,
                    published_at,
                },
            ),
            Err(e) => e == StoreError::DuplicateIssue && final(transaction)@ == old(transaction)@,
        },
        old(transaction)@.issues.len() == 0 ==> res is Ok,
{
    let newsletter_issue_id = IssueId(random_uuid());
    insert_newsletter_issue_as(
        transaction,
        newsletter_issue_id,
        title,
        text_content,
        html_content,
        published_at,
    )
}

/// Writes one delivery task of issue `newsletter_issue_id` for each of
/// `confirmed`, the addresses of the subscribers that are confirmed now,
/// and returns their number. Fails, writing nothing, where the issue was
/// not written in this transaction or an address would get two tasks.
pub fn enqueue_delivery_tasks(
    transaction: &mut Transaction,
    newsletter_issue_id: IssueId,
    confirmed: &Vec<String>,
) -> (res: Result<usize, StoreError>)
    requires
        old(transaction).wf(),
    ensures
        final(transaction).wf(),
        match res {
            Ok(n) => old(transaction)@.stage_tasks_error(
                newsletter_issue_id.0,
                strings_view(confirmed@),
            ) is None && n == confirmed@.len() && final(transaction)@ == old(transaction)@.stage_tasks(newsletter_issue_id.0, strings_view(confirmed@)),
            Err(e) => old(transaction)@.stage_tasks_error(
                newsletter_issue_id.0,
                strings_view(confirmed@),
            ) == Some(e) && final(transaction)@ == old(transaction)@,
        },
{
    transaction.stage_tasks(newsletter_issue_id, confirmed)
}

/// Publishes the issue of `form` under the identifier `issue_id`, once
/// per operator and idempotency key.
///
/// The first request under a key stores the issue, enqueues one delivery
/// task for each of `confirmed` and saves its response, all in one
/// transaction. Every later request under the key is answered with the
/// saved response and changes nothing. A request that finds the key
/// reserved by a request that has not completed fails and changes
/// nothing. A first request that is refused by the store leaves its
/// reservation behind and nothing else.
pub fn publish_newsletter_as(
    db: &mut Database,
    form: &FormData,
    user_id: UserId,
    issue_id: IssueId,
    confirmed: &Vec<String>,
    published_at: i64,
) -> (res: Result<ResponseEnvelope, StoreError>)
    requires
        old(db).wf(),
    ensures
        final(db).wf(),
        (final(db)@, answer_view(res)) == old(db)@.publish(
            user_id.0,
            form.idempotency_key@,
            issue_of(*form, issue_id.0, published_at),
            strings_view(confirmed@),
        ),
{
    let mut transaction = match try_processing(db, &form.idempotency_key, user_id) {
        Err(e) => {
            return Err(e);
        },
        Ok(NextAction::ReturnSavedResponse(saved_response)) => {
            return Ok(saved_response);
        },
        Ok(NextAction::StartProcessing(t)) => t,
    };
    let staged = insert_newsletter_issue_as(
        &mut transaction,
        issue_id,
        form.title.as_ref(),
        form.text_content.as_ref(),
        form.html_content.as_ref(),
        published_at,
    );
    assert(staged is Ok);
    match enqueue_delivery_tasks(&mut transaction, issue_id, confirmed) {
        Err(e) => {
            return Err(e);
        },
        Ok(_) => {},
    }
    proof {
        reveal_strlit("/admin/newsletter");
    }
    let response = see_other("/admin/newsletter");
    save_response(db, transaction, &form.idempotency_key, user_id, response)
}

/// Publishes the issue of `form` under a fresh random identifier, once
/// per operator and idempotency key: see [`publish_newsletter_as`], which
/// says what is done for each identifier that may be drawn.
pub fn publish_newsletter(
    db: &mut Database,
    form: &FormData,
    user_id: UserId,
    confirmed: &Vec<String>,
    published_at: i64,
) -> (res: Result<ResponseEnvelope, StoreError>)
    requires
        old(db).wf(),
    ensures
        final(db).wf(),
        exists|id: u128|
            (final(db)@, answer_view(res)) == #[trigger] old(db)@.publish(
                user_id.0,
                form.idempotency_key@,
                issue_of(*form, id, published_at),
                strings_view(confirmed@),
            ),
{
    let issue_id = IssueId(random_uuid());
    publish_newsletter_as(db, form, user_id, issue_id, confirmed, published_at)
}

} // verus!
