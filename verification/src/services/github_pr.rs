//! Pull requests: what the answers for a pull request and its reviews say.

use vstd::prelude::*;
use crate::json::{unsigned_view, Fields, JsonView, Metadata};
use crate::text::{concat4, str_eq};

verus! {

/// A pull request as the code host reports it.
pub struct PullRequest {
    pub number: u64,
    pub title: String,
    pub state: String,
    pub merged: bool,
    pub draft: bool,
    pub updated_at: String,
}

/// A review of a pull request.
pub struct Review {
    pub state: String,
    pub submitted_at: Option<String>,
}

/// Some review is in the given state.
pub open spec fn has_review(reviews: Seq<Review>, state: Seq<char>) -> bool {
    exists|i: int| 0 <= i < reviews.len() && (#[trigger] reviews[i]).state@ == state
}

/// Whether some review is in the given state.
pub fn any_review(reviews: &Vec<Review>, state: &str) -> (r: bool)
    ensures
        r == has_review(reviews@, state@),
{
    let mut i: usize = 0;
    while i < reviews.len()
        invariant
            i <= reviews@.len(),
            forall|k: int| 0 <= k < i ==> (#[trigger] reviews@[k]).state@ != state@,
        decreases reviews.len() - i,
    {
        if str_eq(reviews[i].state.as_str(), state) {
            return true;
        }
        i += 1;
    }
    false
}

/// What the answers for a pull request say, as metadata.
pub open spec fn pr_fields(pr: PullRequest, reviews: Seq<Review>) -> Fields {
    Fields::empty().insert("title"@, JsonView::Text(pr.title@)).insert(
        "state"@,
        JsonView::Text(pr.state@),
    ).insert("merged"@, JsonView::Bool(pr.merged)).insert("draft"@, JsonView::Bool(pr.draft)).insert(
        "updated_at"@,
        JsonView::Text(pr.updated_at@),
    ).insert("review_count"@, unsigned_view(reviews.len() as u64)).insert(
        "has_approval"@,
        JsonView::Bool(has_review(reviews, "APPROVED"@)),
    ).insert("has_changes_requested"@, JsonView::Bool(has_review(reviews, "CHANGES_REQUESTED"@)))
}

/// Normalises the answers for a pull request and its reviews.
pub fn check_github_pr(pr: &PullRequest, reviews: &Vec<Review>) -> (r: Metadata)
    ensures
        r@ == pr_fields(*pr, reviews@),
{
    let mut doc = Metadata::new();
    doc.insert_str("title", pr.title.as_str());
    doc.insert_str("state", pr.state.as_str());
    doc.insert_bool("merged", pr.merged);
    doc.insert_bool("draft", pr.draft);
    doc.insert_str("updated_at", pr.updated_at.as_str());
    doc.insert_u64("review_count", reviews.len() as u64);
    doc.insert_bool("has_approval", any_review(reviews, "APPROVED"));
    doc.insert_bool("has_changes_requested", any_review(reviews, "CHANGES_REQUESTED"));
    doc
}

/// The error text of one of two answers: `none` where the answer came.
pub open spec fn failure_text(answer: Result<String, String>) -> Seq<char> {
    match answer {
        Ok(_) => "none"@,
        Err(e) => e@,
    }
}

/// The error of a try in which the pull request or its reviews failed.
pub open spec fn pair_error_text(pr: Result<String, String>, reviews: Result<String, String>) -> Seq<char> {
    "pr: "@ + failure_text(pr) + " | reviews: "@ + failure_text(reviews)
}

/// Says for a try of the command-line client what failed: the pull request,
/// its reviews, or both.
pub fn pair_error(pr: &Result<String, String>, reviews: &Result<String, String>) -> (r: String)
    ensures
        r@ == pair_error_text(*pr, *reviews),
{
    let a = match pr {
        Ok(_) => "none",
        Err(e) => e.as_str(),
    };
    let b = match reviews {
        Ok(_) => "none",
        Err(e) => e.as_str(),
    };
    concat4("pr: ", a, " | reviews: ", b)
}

} // verus!
