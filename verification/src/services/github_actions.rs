//! CI runs: how a run is fetched, and what its answer says.
//!
//! A run is fetched over HTTP first. Where that fails the command-line client
//! is asked, first with the stored token, then with its own login. Every
//! failure on the way is kept, so that the final error names each path.

use vstd::prelude::*;
use crate::json::{Fields, JsonView, Metadata};
use crate::text::{concat2, concat3, concat4, opt_text, trim, trimmed};

verus! {

/// A CI run as the code host reports it.
pub struct WorkflowRun {
    pub id: u64,
    pub name: String,
    pub status: String,
    pub conclusion: Option<String>,
    pub created_at: String,
    pub updated_at: String,
}

/// Which way of fetching is tried.
#[derive(PartialEq, Eq, Structural, Clone, Copy, Debug)]
pub enum FetchStep {
    /// The HTTP interface, with the stored token.
    Http,
    /// The command-line client, with the stored token.
    CliWithToken,
    /// The command-line client, with its own login.
    CliLocalAuth,
}

/// How one try ended.
pub enum Attempt<T> {
    /// The answer arrived.
    Fetched(T),
    /// The service refused: the next way is tried.
    Refused(String),
    /// The way itself is broken (no client installed, an answer that cannot
    /// be read): no further way is tried.
    Broken(String),
}

/// Where a fetch stands.
pub struct FetchState {
    pub step: FetchStep,
    pub http_error: Option<String>,
    pub token_error: Option<String>,
}

/// What to do after a try.
pub enum FetchProgress<T> {
    /// Try the step of this state next.
    Continue(FetchState),
    /// The fetch is over.
    Done(Result<T, String>),
}

/// The error of a fetch on which both the HTTP interface and the client failed.
pub open spec fn both_paths_failed(label: Seq<char>, http_error: Seq<char>, cli_error: Seq<char>) -> Seq<char> {
    label + " | http: "@ + http_error + " | gh: "@ + cli_error
}

/// The error of a client that failed with the token and with its own login.
pub open spec fn both_logins_failed(token_error: Seq<char>, local_error: Seq<char>) -> Seq<char> {
    "gh api failed with token and with local auth | with token: "@ + token_error
        + " | local auth: "@ + local_error
}

/// The text of an optional error; empty where there is none.
pub open spec fn error_text(e: Option<String>) -> Seq<char> {
    match e {
        Some(s) => s@,
        None => Seq::empty(),
    }
}

/// The state in which a fetch starts.
pub fn start_fetch() -> (r: FetchState)
    ensures
        r.step == FetchStep::Http,
        r.http_error is None,
        r.token_error is None,
{
    FetchState { step: FetchStep::Http, http_error: None, token_error: None }
}

/// What follows a try, as a view: the next step or the end.
pub enum ProgressView<T> {
    Continue { step: FetchStep, http_error: Option<Seq<char>>, token_error: Option<Seq<char>> },
    Done(Result<T, Seq<char>>),
}

/// The view of a progress.
pub open spec fn progress_view<T>(p: FetchProgress<T>) -> ProgressView<T> {
    match p {
        FetchProgress::Continue(s) => ProgressView::Continue {
            step: s.step,
            http_error: opt_text(s.http_error),
            token_error: opt_text(s.token_error),
        },
        FetchProgress::Done(Ok(v)) => ProgressView::Done(Ok(v)),
        FetchProgress::Done(Err(e)) => ProgressView::Done(Err(e@)),
    }
}

/// The rule of the fetch: any failure over HTTP leads to the client; a
/// refusal of the client with the token leads to its own login; everything
/// else ends the fetch, with the answer or with an error that names each
/// path that failed.
pub open spec fn next_progress<T>(state: FetchState, attempt: Attempt<T>, label: Seq<char>) -> ProgressView<T> {
    match attempt {
        Attempt::Fetched(v) => ProgressView::Done(Ok(v)),
        Attempt::Refused(e) => match state.step {
            FetchStep::Http => ProgressView::Continue {
                step: FetchStep::CliWithToken,
                http_error: Some(e@),
                token_error: None,
            },
            FetchStep::CliWithToken => ProgressView::Continue {
                step: FetchStep::CliLocalAuth,
                http_error: opt_text(state.http_error),
                token_error: Some(e@),
            },
            FetchStep::CliLocalAuth => ProgressView::Done(
                Err(
                    both_paths_failed(
                        label,
                        error_text(state.http_error),
                        both_logins_failed(error_text(state.token_error), e@),
                    ),
                ),
            ),
        },
        Attempt::Broken(e) => match state.step {
            FetchStep::Http => ProgressView::Continue {
                step: FetchStep::CliWithToken,
                http_error: Some(e@),
                token_error: None,
            },
            _ => ProgressView::Done(Err(both_paths_failed(label, error_text(state.http_error), e@))),
        },
    }
}

/// Decides what follows a try. `label` opens the error of a fetch that failed
/// on every path.
pub fn advance_fetch<T>(state: FetchState, attempt: Attempt<T>, label: &str) -> (r: FetchProgress<T>)
    ensures
        progress_view(r) == next_progress(state, attempt, label@),
{
    let FetchState { step, http_error, token_error } = state;
    match attempt {
        Attempt::Fetched(v) => FetchProgress::Done(Ok(v)),
        Attempt::Refused(e) => match step {
            FetchStep::Http => FetchProgress::Continue(
                FetchState { step: FetchStep::CliWithToken, http_error: Some(e), token_error: None },
            ),
            FetchStep::CliWithToken => FetchProgress::Continue(
                FetchState { step: FetchStep::CliLocalAuth, http_error, token_error: Some(e) },
            ),
            FetchStep::CliLocalAuth => {
                let with_token = match &token_error {
                    Some(t) => t.as_str(),
                    None => "",
                };
                let cli = concat4(
                    "gh api failed with token and with local auth | with token: ",
                    with_token,
                    " | local auth: ",
                    e.as_str(),
                );
                proof {
                    reveal_strlit("");
                    assert(""@ =~= Seq::<char>::empty());
                }
                FetchProgress::Done(Err(failed_on_both(label, &http_error, cli.as_str())))
            },
        },
        Attempt::Broken(e) => match step {
            FetchStep::Http => FetchProgress::Continue(
                FetchState { step: FetchStep::CliWithToken, http_error: Some(e), token_error: None },
            ),
            _ => FetchProgress::Done(Err(failed_on_both(label, &http_error, e.as_str()))),
        },
    }
}

/// The error of a fetch on which both paths failed.
fn failed_on_both(label: &str, http_error: &Option<String>, cli_error: &str) -> (r: String)
    ensures
        r@ == both_paths_failed(label@, error_text(*http_error), cli_error@),
{
    let http = match http_error {
        Some(h) => h.as_str(),
        None => "",
    };
    proof {
        reveal_strlit("");
        assert(""@ =~= Seq::<char>::empty());
    }
    let front = concat3(label, " | http: ", http);
    concat3(front.as_str(), " | gh: ", cli_error)
}

/// The label of a failed fetch of a CI run.
pub const ACTION_FETCH_LABEL: &'static str = "GitHub polling failed via HTTP and gh CLI";

/// The label of a failed fetch of a pull request.
pub const PR_FETCH_LABEL: &'static str = "GitHub PR polling failed via HTTP and gh CLI";

/// Whether a token is as good as missing: empty but for white space.
pub open spec fn blank(token: Seq<char>) -> bool {
    trimmed(token).len() == 0
}

/// Whether the HTTP interface can be asked at all: it needs a token.
pub fn http_precheck(token: &str) -> (r: Result<(), String>)
    ensures
        r is Ok == !blank(token@),
        r matches Err(e) ==> e@ == "GitHub token not configured"@,
{
    if trim(token).unicode_len() == 0 {
        Err(String::from_str("GitHub token not configured"))
    } else {
        Ok(())
    }
}

/// The token to hand to the command-line client: none where it is blank.
pub fn cli_token(token: &str) -> (r: Option<&str>)
    ensures
        r is Some == !blank(token@),
        r matches Some(t) ==> t@ == token@,
{
    if trim(token).unicode_len() == 0 {
        None
    } else {
        Some(token)
    }
}

/// The error for an HTTP answer that reports failure: the status, then the
/// body where it is not blank, then the single-sign-on hint where one came.
pub open spec fn api_error_text(status: Seq<char>, body: Seq<char>, sso: Option<Seq<char>>) -> Seq<char> {
    let head = "GitHub API error: "@ + status;
    let with_body = if blank(body) {
        head
    } else {
        head + " | "@ + body
    };
    match sso {
        Some(s) => with_body + " | x-github-sso: "@ + s,
        None => with_body,
    }
}

/// The error for an HTTP answer that reports failure.
pub fn github_api_error(status: &str, body: &str, sso: Option<&str>) -> (r: String)
    ensures
        r@ == api_error_text(
            status@,
            body@,
            match sso {
                Some(s) => Some(s@),
                None => None,
            },
        ),
{
    let mut message = concat2("GitHub API error: ", status);
    if trim(body).unicode_len() != 0 {
        message = concat3(message.as_str(), " | ", body);
    }
    match sso {
        Some(s) => concat3(message.as_str(), " | x-github-sso: ", s),
        None => message,
    }
}

/// The error for a missing command-line client.
pub fn cli_not_found() -> (r: String)
    ensures
        r@ == "GitHub CLI not found (`gh` not installed)"@,
{
    String::from_str("GitHub CLI not found (`gh` not installed)")
}

/// What a run's answer says, as metadata.
pub open spec fn run_fields(run: WorkflowRun) -> Fields {
    Fields::empty().insert("status"@, JsonView::Text(run.status@)).insert(
        "conclusion"@,
        match run.conclusion {
            Some(c) => JsonView::Text(c@),
            None => JsonView::Null,
        },
    ).insert("name"@, JsonView::Text(run.name@)).insert(
        "updated_at"@,
        JsonView::Text(run.updated_at@),
    )
}

/// Normalises the answer for a CI run.
pub fn check_github_action(run: &WorkflowRun) -> (r: Metadata)
    ensures
        r@ == run_fields(*run),
{
    let mut doc = Metadata::new();
    doc.insert_str("status", run.status.as_str());
    doc.insert_opt_str("conclusion", &run.conclusion);
    doc.insert_str("name", run.name.as_str());
    doc.insert_str("updated_at", run.updated_at.as_str());
    doc
}

} // verus!
