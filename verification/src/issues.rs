//! Newsletter issues.

use crate::model::IssueView;
use vstd::prelude::*;

verus! {

/// The identifier of a newsletter issue.
#[derive(Clone, Copy, Debug, PartialEq, Eq, Hash, Structural)]
pub struct IssueId(pub u128);

/// The content of one newsletter issue. An issue is never changed after
/// it was stored.
#[derive(Debug, PartialEq, Eq)]
pub struct NewsletterIssue {
    pub newsletter_issue_id: IssueId,
    pub title: String,
    pub text_content: String,
    pub html_content: String,
    /// When the issue was published, in seconds since the Unix epoch.
    pub published_at: i64,
}

impl View for NewsletterIssue {
    type V = IssueView;

    open spec fn view(&self) -> IssueView {
        IssueView {
            id: self.newsletter_issue_id.0,
            title: self.title@,
            text_content: self.text_content@,
            html_content: self.html_content@,
            published_at: self.published_at,
        }
    }
}

impl NewsletterIssue {
    /// A copy of this issue.
    pub fn duplicate(&self) -> (res: NewsletterIssue)
        ensures
            res@ == self@,
    {
        NewsletterIssue {
            newsletter_issue_id: self.newsletter_issue_id,
            title: self.title.clone(),
            text_content: self.text_content.clone(),
            html_content: self.html_content.clone(),
            published_at: self.published_at,
        }
    }
}

/// The issues of a vector, in its order.
pub open spec fn issues_view(issues: Seq<NewsletterIssue>) -> Seq<IssueView> {
    Seq::new(issues.len(), |i: int| issues[i]@)
}

} // verus!
