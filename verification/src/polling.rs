//! The reconciliation loop: which items are polled, what an answer of an
//! outside service means for an item, and how a failure is recorded.
//!
//! Nothing here talks to a service. A poll is planned here, carried out by
//! the caller, and its answer is judged here.

use vstd::prelude::*;
use crate::db::{Database, DatabaseView, Item, ItemView, StoreError, has_id};
use crate::json::{bool_at, int_at, text_at, Fields, JsonView, Metadata};
use crate::services::opencode::{build_web_url, web_url, OpenCodeSession};
use crate::services::url_parser::{parse_url, parse_url_spec};
use crate::text::{concat2, contains, decimal_u64, has_substring, opt_text, parse_u64, str_eq};

verus! {

/// What a poll changes in an item.
pub struct Transition {
    pub status: String,
    pub metadata: Metadata,
    pub checked: Option<bool>,
    pub notification: Option<String>,
}

/// What follows from a poll that went well.
pub enum PollAction {
    /// Nothing changed: only the time of the last check moves.
    Touch,
    /// The status is written, with the merged metadata.
    Update(Transition),
}

/// An action as contracts see it.
pub enum ActionView {
    Touch,
    Update {
        status: Seq<char>,
        metadata: Fields,
        checked: Option<bool>,
        notification: Option<Seq<char>>,
    },
}

impl View for PollAction {
    type V = ActionView;

    open spec fn view(&self) -> ActionView {
        match *self {
            PollAction::Touch => ActionView::Touch,
            PollAction::Update(t) => ActionView::Update {
                status: t.status@,
                metadata: t.metadata@,
                checked: t.checked,
                notification: opt_text(t.notification),
            },
        }
    }
}

/// Whether a status is one in which an item rests.
pub open spec fn is_terminal(status: Seq<char>) -> bool {
    status == "completed"@ || status == "failed"@
}

/// Whether a status is one in which an item is underway.
pub open spec fn is_active(status: Seq<char>) -> bool {
    status == "waiting"@ || status == "in_progress"@
}

/// What a change of status means for the acknowledgement: an item that
/// becomes archived is acknowledged, an item that leaves a resting status for
/// an active one comes back to the user's attention, and otherwise the
/// acknowledgement stays.
pub open spec fn checked_after(old_status: Seq<char>, new_status: Seq<char>) -> Option<bool> {
    if new_status == "archived"@ && old_status != "archived"@ {
        Some(true)
    } else if is_terminal(old_status) && is_active(new_status) {
        Some(false)
    } else {
        None
    }
}

/// What a change of status means for the acknowledgement.
pub fn acknowledgement_after(old_status: &str, new_status: &str) -> (r: Option<bool>)
    ensures
        r == checked_after(old_status@, new_status@),
{
    if str_eq(new_status, "archived") && !str_eq(old_status, "archived") {
        Some(true)
    } else if (str_eq(old_status, "completed") || str_eq(old_status, "failed")) && (str_eq(
        new_status,
        "waiting",
    ) || str_eq(new_status, "in_progress")) {
        Some(false)
    } else {
        None
    }
}

/// The update of an item to a status, with the acknowledgement that the
/// change of status asks for.
pub open spec fn update_of(
    item: ItemView,
    status: Seq<char>,
    metadata: Fields,
    notification: Option<Seq<char>>,
) -> ActionView {
    ActionView::Update {
        status,
        metadata,
        checked: checked_after(item.status, status),
        notification,
    }
}

/// The item after an action at the time `now`.
pub open spec fn applied(item: ItemView, action: ActionView, now: Seq<char>) -> ItemView {
    match action {
        ActionView::Touch => item.touched(now),
        ActionView::Update { status, metadata, checked, notification } => item.with_status(
            status,
            Some(metadata),
            now,
        ).with_checked(checked),
    }
}

/// Makes the update of an item to a status.
fn make_update(item: &Item, status: &str, metadata: Metadata, notification: Option<String>) -> (r:
    PollAction)
    ensures
        r@ == update_of(item@, status@, metadata@, opt_text(notification)),
{
    PollAction::Update(
        Transition {
            status: String::from_str(status),
            metadata,
            checked: acknowledgement_after(item.status.as_str(), status),
            notification,
        },
    )
}

/// A number held by a member, or nought.
pub open spec fn count_at(f: Fields, key: Seq<char>) -> int {
    match int_at(f, key) {
        Some(n) => n,
        None => 0,
    }
}

/// A number held by a member, or nought.
fn count_in(doc: &Metadata, key: &str) -> (r: i64)
    ensures
        r == count_at(doc@, key@),
{
    match doc.get_i64(key) {
        Some(n) => n,
        None => 0,
    }
}

/// What is asked of the chat service for an item.
pub struct SlackRequest {
    pub token: String,
    pub channel_id: String,
    pub thread_ts: String,
}

/// What is asked for a chat thread item: its channel and thread, with the
/// token. Each of the three may be missing, which is an error of this item.
pub open spec fn slack_request_spec(item: ItemView, token: Option<Seq<char>>) -> Result<
    (Seq<char>, Seq<char>, Seq<char>),
    Seq<char>,
> {
    if token is None {
        Err("Slack token not configured"@)
    } else if text_at(item.metadata, "channel_id"@) is None {
        Err("Missing channel_id"@)
    } else if text_at(item.metadata, "thread_ts"@) is None {
        Err("Missing thread_ts"@)
    } else {
        Ok(
            (
                token->0,
                text_at(item.metadata, "channel_id"@)->0,
                text_at(item.metadata, "thread_ts"@)->0,
            ),
        )
    }
}

/// Plans the poll of a chat thread item.
pub fn slack_request(item: &Item, token: Option<String>) -> (r: Result<SlackRequest, String>)
    ensures
        match r {
            Ok(req) => slack_request_spec(item@, opt_text(token)) == Ok::<
                (Seq<char>, Seq<char>, Seq<char>),
                Seq<char>,
            >((req.token@, req.channel_id@, req.thread_ts@)),
            Err(e) => slack_request_spec(item@, opt_text(token)) == Err::<
                (Seq<char>, Seq<char>, Seq<char>),
                Seq<char>,
            >(e@),
        },
{
    let token = match token {
        Some(t) => t,
        None => {
            return Err(String::from_str("Slack token not configured"));
        },
    };
    let channel_id = match item.metadata.get_str("channel_id") {
        Some(c) => c,
        None => {
            return Err(String::from_str("Missing channel_id"));
        },
    };
    let thread_ts = match item.metadata.get_str("thread_ts") {
        Some(t) => t,
        None => {
            return Err(String::from_str("Missing thread_ts"));
        },
    };
    Ok(SlackRequest { token, channel_id, thread_ts })
}

/// The metadata of a chat thread item after an answer: what was stored, what
/// the answer says, and the channel and thread by which it was asked.
pub open spec fn slack_metadata(item: ItemView, channel_id: Seq<char>, thread_ts: Seq<char>, result: Fields) -> Fields {
    item.metadata.union_prefer_right(result).insert("channel_id"@, JsonView::Text(channel_id)).insert(
        "thread_ts"@,
        JsonView::Text(thread_ts),
    )
}

/// What an answer means for a chat thread item: it is `updated` when the
/// thread has more messages than were stored, and untouched otherwise.
pub open spec fn slack_action(item: ItemView, channel_id: Seq<char>, thread_ts: Seq<char>, result: Fields) -> ActionView {
    if count_at(result, "message_count"@) > count_at(item.metadata, "message_count"@) {
        update_of(item, "updated"@, slack_metadata(item, channel_id, thread_ts, result), None)
    } else {
        ActionView::Touch
    }
}

/// Judges the answer for a chat thread item.
pub fn poll_slack_thread(item: &Item, request: &SlackRequest, result: &Metadata) -> (r: PollAction)
    ensures
        r@ == slack_action(item@, request.channel_id@, request.thread_ts@, result@),
{
    let old_count = count_in(&item.metadata, "message_count");
    let new_count = count_in(result, "message_count");
    if new_count > old_count {
        let mut metadata = item.metadata.clone();
        metadata.merge(result);
        metadata.insert_str("channel_id", request.channel_id.as_str());
        metadata.insert_str("thread_ts", request.thread_ts.as_str());
        make_update(item, "updated", metadata, None)
    } else {
        PollAction::Touch
    }
}

/// A field by which an item is polled: from its metadata, or, where the
/// metadata lacks it, from its URL read once more.
pub open spec fn resolved_field(item: ItemView, key: Seq<char>) -> Option<Seq<char>> {
    if text_at(item.metadata, key) is Some {
        text_at(item.metadata, key)
    } else {
        match item.url {
            Some(url) => match parse_url_spec(url) {
                Ok(parsed) => if parsed.metadata.contains_key(key) {
                    Some(parsed.metadata[key])
                } else {
                    None
                },
                Err(_) => None,
            },
            None => None,
        }
    }
}

/// Finds a field by which an item is polled. Where neither the metadata nor
/// the URL gives it, the error names the field.
pub fn resolve_metadata_field(item: &Item, key: &str) -> (r: Result<String, String>)
    ensures
        match r {
            Ok(v) => resolved_field(item@, key@) == Some(v@),
            Err(e) => resolved_field(item@, key@) is None && e@ == "Missing "@ + key@,
        },
{
    match item.metadata.get_str(key) {
        Some(v) => {
            return Ok(v);
        },
        None => {},
    }
    match &item.url {
        Some(url) => match parse_url(url.as_str()) {
            Ok(parsed) => match parsed.metadata.get(key) {
                Some(v) => {
                    return Ok(v.clone());
                },
                None => {},
            },
            Err(_) => {},
        },
        None => {},
    }
    Err(concat2("Missing ", key))
}

/// What is asked of the code host for an item.
pub struct GithubRequest {
    pub token: String,
    pub owner: String,
    pub repo: String,
    pub number: String,
}

/// The text of an optional token; empty where there is none.
pub open spec fn token_text(token: Option<Seq<char>>) -> Seq<char> {
    match token {
        Some(t) => t,
        None => Seq::empty(),
    }
}

/// What is asked for an item of the code host: owner, repository and the
/// number under `number_key`. The first field that cannot be found is the
/// error.
pub open spec fn github_request_spec(item: ItemView, number_key: Seq<char>) -> Result<
    (Seq<char>, Seq<char>, Seq<char>),
    Seq<char>,
> {
    if resolved_field(item, "owner"@) is None {
        Err("Missing "@ + "owner"@)
    } else if resolved_field(item, "repo"@) is None {
        Err("Missing "@ + "repo"@)
    } else if resolved_field(item, number_key) is None {
        Err("Missing "@ + number_key)
    } else {
        Ok(
            (
                resolved_field(item, "owner"@)->0,
                resolved_field(item, "repo"@)->0,
                resolved_field(item, number_key)->0,
            ),
        )
    }
}

/// Plans the poll of an item of the code host. A missing token is no error
/// here: the fetch decides what to do without one.
pub fn github_request(item: &Item, token: Option<String>, number_key: &str) -> (r: Result<
    GithubRequest,
    String,
>)
    ensures
        match r {
            Ok(req) => github_request_spec(item@, number_key@) == Ok::<
                (Seq<char>, Seq<char>, Seq<char>),
                Seq<char>,
            >((req.owner@, req.repo@, req.number@)) && req.token@ == token_text(opt_text(token)),
            Err(e) => github_request_spec(item@, number_key@) == Err::<
                (Seq<char>, Seq<char>, Seq<char>),
                Seq<char>,
            >(e@),
        },
{
    let token = match token {
        Some(t) => t,
        None => String::new(),
    };
    let owner = match resolve_metadata_field(item, "owner") {
        Ok(v) => v,
        Err(e) => {
            return Err(e);
        },
    };
    let repo = match resolve_metadata_field(item, "repo") {
        Ok(v) => v,
        Err(e) => {
            return Err(e);
        },
    };
    let number = match resolve_metadata_field(item, number_key) {
        Ok(v) => v,
        Err(e) => {
            return Err(e);
        },
    };
    Ok(GithubRequest { token, owner, repo, number })
}

/// The status of an item for the state of a CI run: a queued or waiting run
/// waits, a run in progress is in progress, and a completed run has failed
/// where it concluded in failure or was cancelled, and is completed
/// otherwise. A state that is not known waits.
pub open spec fn action_status_spec(status: Seq<char>, conclusion: Option<Seq<char>>) -> Seq<char> {
    if status == "queued"@ || status == "waiting"@ {
        "waiting"@
    } else if status == "in_progress"@ {
        "in_progress"@
    } else if status == "completed"@ {
        if conclusion == Some("failure"@) || conclusion == Some("cancelled"@) {
            "failed"@
        } else {
            "completed"@
        }
    } else {
        "waiting"@
    }
}

/// The status of an item for the state of a CI run.
pub fn action_status(status: &str, conclusion: &Option<String>) -> (r: &'static str)
    ensures
        r@ == action_status_spec(status@, opt_text(*conclusion)),
{
    if str_eq(status, "queued") || str_eq(status, "waiting") {
        "waiting"
    } else if str_eq(status, "in_progress") {
        "in_progress"
    } else if str_eq(status, "completed") {
        let failed = match conclusion {
            Some(c) => str_eq(c.as_str(), "failure") || str_eq(c.as_str(), "cancelled"),
            None => false,
        };
        if failed {
            "failed"
        } else {
            "completed"
        }
    } else {
        "waiting"
    }
}

/// Whether the metadata lacks one of the fields by which an item of the code
/// host is polled.
pub open spec fn lacks_ids(metadata: Fields, number_key: Seq<char>) -> bool {
    ||| text_at(metadata, "owner"@) is None
    ||| text_at(metadata, "repo"@) is None
    ||| text_at(metadata, number_key) is None
}

/// Whether the metadata lacks one of the fields by which an item is polled.
fn ids_missing(metadata: &Metadata, number_key: &str) -> (r: bool)
    ensures
        r == lacks_ids(metadata@, number_key@),
{
    metadata.get_str("owner").is_none() || metadata.get_str("repo").is_none() || metadata.get_str(
        number_key,
    ).is_none()
}

/// The metadata of an item of the code host after an answer: what was
/// stored, what the answer says, and the fields by which it was asked.
pub open spec fn github_metadata(
    item: ItemView,
    owner: Seq<char>,
    repo: Seq<char>,
    number_key: Seq<char>,
    number: Seq<char>,
    result: Fields,
) -> Fields {
    item.metadata.union_prefer_right(result).insert("owner"@, JsonView::Text(owner)).insert(
        "repo"@,
        JsonView::Text(repo),
    ).insert(number_key, JsonView::Text(number))
}

/// The merged metadata of an item of the code host.
fn merged_github(item: &Item, request: &GithubRequest, number_key: &str, result: &Metadata) -> (r:
    Metadata)
    ensures
        r@ == github_metadata(
            item@,
            request.owner@,
            request.repo@,
            number_key@,
            request.number@,
            result@,
        ),
{
    let mut metadata = item.metadata.clone();
    metadata.merge(result);
    metadata.insert_str("owner", request.owner.as_str());
    metadata.insert_str("repo", request.repo.as_str());
    metadata.insert_str(number_key, request.number.as_str());
    metadata
}

/// The status that an answer for a CI run asks for.
pub open spec fn run_status(result: Fields) -> Seq<char> {
    action_status_spec(
        match text_at(result, "status"@) {
            Some(s) => s,
            None => "unknown"@,
        },
        text_at(result, "conclusion"@),
    )
}

/// What an answer means for a CI run item: the status is written where it
/// changed, or where the stored metadata lacks a field by which the item is
/// polled.
pub open spec fn github_action_action(
    item: ItemView,
    owner: Seq<char>,
    repo: Seq<char>,
    run_id: Seq<char>,
    result: Fields,
) -> ActionView {
    if run_status(result) != item.status || lacks_ids(item.metadata, "run_id"@) {
        update_of(
            item,
            run_status(result),
            github_metadata(item, owner, repo, "run_id"@, run_id, result),
            None,
        )
    } else {
        ActionView::Touch
    }
}

/// Judges the answer for a CI run item.
pub fn poll_github_action(item: &Item, request: &GithubRequest, result: &Metadata) -> (r: PollAction)
    ensures
        r@ == github_action_action(
            item@,
            request.owner@,
            request.repo@,
            request.number@,
            result@,
        ),
{
    let status = match result.get_str("status") {
        Some(s) => s,
        None => String::from_str("unknown"),
    };
    let conclusion = result.get_str("conclusion");
    let new_status = action_status(status.as_str(), &conclusion);
    if !str_eq(new_status, item.status.as_str()) || ids_missing(&item.metadata, "run_id") {
        let metadata = merged_github(item, request, "run_id", result);
        make_update(item, new_status, metadata, None)
    } else {
        PollAction::Touch
    }
}

/// A flag held by a member, or `false`.
pub open spec fn flag_at(f: Fields, key: Seq<char>) -> bool {
    match bool_at(f, key) {
        Some(b) => b,
        None => false,
    }
}

/// A flag held by a member, or `false`.
fn flag_in(doc: &Metadata, key: &str) -> (r: bool)
    ensures
        r == flag_at(doc@, key@),
{
    match doc.get_bool(key) {
        Some(b) => b,
        None => false,
    }
}

/// Whether an answer counts more reviews than were stored.
pub open spec fn more_reviews(item: ItemView, result: Fields) -> bool {
    count_at(result, "review_count"@) > count_at(item.metadata, "review_count"@)
}

/// The status that an answer for a pull request asks for: completed where it
/// was merged or closed; updated where a review came, or an approval or a
/// request for changes stands; in progress otherwise.
pub open spec fn pr_status(item: ItemView, result: Fields) -> Seq<char> {
    if flag_at(result, "merged"@) || text_at(result, "state"@) == Some("closed"@) {
        "completed"@
    } else if more_reviews(item, result) || flag_at(result, "has_approval"@) || flag_at(
        result,
        "has_changes_requested"@,
    ) {
        "updated"@
    } else {
        "in_progress"@
    }
}

/// What an answer means for a pull request item: the status is written where
/// it changed, where a review came, or where the stored metadata lacks a
/// field by which the item is polled.
pub open spec fn github_pr_action(
    item: ItemView,
    owner: Seq<char>,
    repo: Seq<char>,
    pr_number: Seq<char>,
    result: Fields,
) -> ActionView {
    if pr_status(item, result) != item.status || more_reviews(item, result) || lacks_ids(
        item.metadata,
        "pr_number"@,
    ) {
        update_of(
            item,
            pr_status(item, result),
            github_metadata(item, owner, repo, "pr_number"@, pr_number, result),
            None,
        )
    } else {
        ActionView::Touch
    }
}

/// Judges the answer for a pull request item.
pub fn poll_github_pr(item: &Item, request: &GithubRequest, result: &Metadata) -> (r: PollAction)
    ensures
        r@ == github_pr_action(item@, request.owner@, request.repo@, request.number@, result@),
{
    let more = count_in(result, "review_count") > count_in(&item.metadata, "review_count");
    let closed = match result.get_str("state") {
        Some(s) => str_eq(s.as_str(), "closed"),
        None => false,
    };
    let new_status = if flag_in(result, "merged") || closed {
        "completed"
    } else if more || flag_in(result, "has_approval") || flag_in(result, "has_changes_requested") {
        "updated"
    } else {
        "in_progress"
    };
    if !str_eq(new_status, item.status.as_str()) || more || ids_missing(&item.metadata, "pr_number") {
        let metadata = merged_github(item, request, "pr_number", result);
        make_update(item, new_status, metadata, None)
    } else {
        PollAction::Touch
    }
}

/// How the poll of an agent session goes on.
pub enum AgentPlan {
    /// The service is not set up: only the time of the last check moves.
    Touch,
    /// The session is fetched. The working directory is given where the
    /// metadata holds it; where it does not, it has to be looked up.
    Fetch { session_id: String, stored_directory: Option<String> },
}

/// A plan as contracts see it.
pub enum AgentPlanView {
    Touch,
    Fetch { session_id: Seq<char>, stored_directory: Option<Seq<char>> },
}

/// How the poll of an agent session item goes on. An item without a session
/// id cannot be polled.
pub open spec fn agent_plan(item: ItemView, has_context: bool) -> Result<AgentPlanView, Seq<char>> {
    if !has_context {
        Ok(AgentPlanView::Touch)
    } else {
        match text_at(item.metadata, "session_id"@) {
            Some(id) => Ok(
                AgentPlanView::Fetch {
                    session_id: id,
                    stored_directory: text_at(item.metadata, "directory"@),
                },
            ),
            None => Err("Missing session_id in opencode_session metadata"@),
        }
    }
}

/// The view of a planned poll.
pub open spec fn plan_view(r: Result<AgentPlan, String>) -> Result<AgentPlanView, Seq<char>> {
    match r {
        Ok(AgentPlan::Touch) => Ok(AgentPlanView::Touch),
        Ok(AgentPlan::Fetch { session_id, stored_directory }) => Ok(
            AgentPlanView::Fetch {
                session_id: session_id@,
                stored_directory: opt_text(stored_directory),
            },
        ),
        Err(e) => Err(e@),
    }
}

/// Plans the poll of an agent session item. `has_context` says whether the
/// service is set up and its statuses were fetched for this tick.
pub fn opencode_plan(item: &Item, has_context: bool) -> (r: Result<AgentPlan, String>)
    ensures
        plan_view(r) == agent_plan(item@, has_context),
{
    if !has_context {
        return Ok(AgentPlan::Touch);
    }
    match item.metadata.get_str("session_id") {
        Some(session_id) => Ok(
            AgentPlan::Fetch { session_id, stored_directory: item.metadata.get_str("directory") },
        ),
        None => Err(String::from_str("Missing session_id in opencode_session metadata")),
    }
}

/// The place of a session in a listing.
pub open spec fn session_place(sessions: Seq<OpenCodeSession>, session_id: Seq<char>) -> Option<int>
    decreases sessions.len(),
{
    if sessions.len() == 0 {
        None
    } else if sessions.first().id@ == session_id {
        Some(0)
    } else {
        match session_place(sessions.drop_first(), session_id) {
            Some(i) => Some(i + 1),
            None => None,
        }
    }
}

/// Where a session stands in a listing.
fn find_session(sessions: &Vec<OpenCodeSession>, session_id: &str) -> (r: Option<usize>)
    ensures
        match r {
            Some(i) => session_place(sessions@, session_id@) == Some(i as int) && i < sessions@.len(),
            None => session_place(sessions@, session_id@) is None,
        },
{
    let mut i: usize = 0;
    proof {
        assert(sessions@.skip(0) =~= sessions@);
    }
    while i < sessions.len()
        invariant
            i <= sessions@.len(),
            session_place(sessions@, session_id@) == match session_place(
                sessions@.skip(i as int),
                session_id@,
            ) {
                Some(k) => Some(k + i),
                None => None,
            },
        decreases sessions.len() - i,
    {
        proof {
            assert(sessions@.skip(i as int).first() == sessions@[i as int]);
            assert(sessions@.skip(i as int).drop_first() =~= sessions@.skip(i + 1));
        }
        if str_eq(sessions[i].id.as_str(), session_id) {
            return Some(i);
        }
        i += 1;
    }
    proof {
        assert(sessions@.skip(i as int).len() == 0);
    }
    None
}

/// Whether a session is archived for the engine: the service lists it no
/// longer, or lists it as archived.
pub open spec fn remote_archived(sessions: Seq<OpenCodeSession>, session_id: Seq<char>) -> bool {
    match session_place(sessions, session_id) {
        Some(i) => sessions[i].time.archived is Some,
        None => true,
    }
}

/// The status of an agent session item: archived where the session is;
/// in progress where the agent is busy or tries again; completed otherwise.
pub open spec fn agent_status(archived: bool, session_status: Seq<char>) -> Seq<char> {
    if archived {
        "archived"@
    } else if session_status == "busy"@ || session_status == "retry"@ {
        "in_progress"@
    } else {
        "completed"@
    }
}

/// What the user is told of a change of an agent session.
pub open spec fn agent_notification(old_status: Seq<char>, new_status: Seq<char>) -> Option<Seq<char>> {
    if new_status == old_status {
        None
    } else if old_status == "in_progress"@ && new_status == "completed"@ {
        Some("Waiting for your input"@)
    } else if new_status == "archived"@ {
        Some("Session has been archived"@)
    } else if old_status == "completed"@ && new_status == "in_progress"@ {
        Some("Agent started working"@)
    } else {
        None
    }
}

/// What the user is told of a change of an agent session.
pub fn notification_for(old_status: &str, new_status: &str) -> (r: Option<String>)
    ensures
        opt_text(r) == agent_notification(old_status@, new_status@),
{
    if str_eq(new_status, old_status) {
        None
    } else if str_eq(old_status, "in_progress") && str_eq(new_status, "completed") {
        Some(String::from_str("Waiting for your input"))
    } else if str_eq(new_status, "archived") {
        Some(String::from_str("Session has been archived"))
    } else if str_eq(old_status, "completed") && str_eq(new_status, "in_progress") {
        Some(String::from_str("Agent started working"))
    } else {
        None
    }
}

/// The metadata of an agent session item after an answer: what was stored
/// and what the answer says; where the session is found, its title and the
/// time of its last change; and the working directory with the address
/// of its dashboard, so that the next poll needs no lookup.
pub open spec fn agent_metadata(
    item: ItemView,
    base_url: Seq<char>,
    directory: Option<Seq<char>>,
    result: Fields,
    found: Option<OpenCodeSession>,
) -> Fields {
    let merged = item.metadata.union_prefer_right(result);
    let titled = match found {
        Some(s) => merged.insert("session_title"@, JsonView::Text(s.title@)).insert(
            "last_activity"@,
            JsonView::Int(s.time.updated as int),
        ),
        None => merged,
    };
    match directory {
        Some(dir) => titled.insert("opencode_url"@, JsonView::Text(web_url(base_url, dir))).insert(
            "directory"@,
            JsonView::Text(dir),
        ),
        None => titled.insert("opencode_url"@, JsonView::Text(base_url)),
    }
}

/// The session at a place of a listing.
pub open spec fn session_at(sessions: Seq<OpenCodeSession>, place: Option<int>) -> Option<OpenCodeSession> {
    match place {
        Some(i) => Some(sessions[i]),
        None => None,
    }
}

/// The status that the answer for an agent session asks for.
pub open spec fn agent_new_status(session_id: Seq<char>, result: Fields, sessions: Seq<OpenCodeSession>) -> Seq<
    char,
> {
    agent_status(
        remote_archived(sessions, session_id),
        match text_at(result, "session_status"@) {
            Some(s) => s,
            None => "unknown"@,
        },
    )
}

/// What an answer means for an agent session item. The status is written
/// where it changed, or where the working directory is known now and was not
/// stored. With a change of status goes what the user is told of it.
pub open spec fn agent_action(
    item: ItemView,
    base_url: Seq<char>,
    session_id: Seq<char>,
    directory: Option<Seq<char>>,
    result: Fields,
    sessions: Seq<OpenCodeSession>,
) -> ActionView {
    let new_status = agent_new_status(session_id, result, sessions);
    if new_status != item.status || (directory is Some && text_at(item.metadata, "directory"@)
        is None) {
        update_of(
            item,
            new_status,
            agent_metadata(
                item,
                base_url,
                directory,
                result,
                session_at(sessions, session_place(sessions, session_id)),
            ),
            agent_notification(item.status, new_status),
        )
    } else {
        ActionView::Touch
    }
}

/// The view of an optional string slice.
pub open spec fn opt_str(o: Option<&str>) -> Option<Seq<char>> {
    match o {
        Some(s) => Some(s@),
        None => None,
    }
}

/// Judges the answer for an agent session item: `result` is what the poll
/// of the session found, `sessions` the listing of the working directory, and
/// `directory` that directory, where it is known.
pub fn poll_opencode_session(
    item: &Item,
    base_url: &str,
    session_id: &str,
    directory: Option<&str>,
    result: &Metadata,
    sessions: &Vec<OpenCodeSession>,
) -> (r: PollAction)
    ensures
        r@ == agent_action(item@, base_url@, session_id@, opt_str(directory), result@, sessions@),
{
    let place = find_session(sessions, session_id);
    let archived = match place {
        Some(i) => sessions[i].time.archived.is_some(),
        None => true,
    };
    let session_status = match result.get_str("session_status") {
        Some(s) => s,
        None => String::from_str("unknown"),
    };
    let new_status = if archived {
        "archived"
    } else if str_eq(session_status.as_str(), "busy") || str_eq(session_status.as_str(), "retry") {
        "in_progress"
    } else {
        "completed"
    };
    let lacks_directory = directory.is_some() && item.metadata.get_str("directory").is_none();
    if str_eq(new_status, item.status.as_str()) && !lacks_directory {
        return PollAction::Touch;
    }
    let mut metadata = item.metadata.clone();
    metadata.merge(result);
    match place {
        Some(i) => {
            metadata.insert_str("session_title", sessions[i].title.as_str());
            metadata.insert_i64("last_activity", sessions[i].time.updated);
        },
        None => {},
    }
    match directory {
        Some(dir) => {
            let url = build_web_url(base_url, dir);
            metadata.insert_str("opencode_url", url.as_str());
            metadata.insert_str("directory", dir);
        },
        None => {
            metadata.insert_str("opencode_url", base_url);
        },
    }
    let notification = notification_for(item.status.as_str(), new_status);
    make_update(item, new_status, metadata, notification)
}

/// Whether a failure is for good: the code host answered an item of its own
/// that the token is wrong, that access is forbidden, or that there is no
/// such thing. Every other failure may pass.
pub open spec fn permanent_error(item_type: Seq<char>, error: Seq<char>) -> bool {
    &&& item_type == "github_action"@ || item_type == "github_pr"@
    &&& (has_substring(error, "GitHub API error: 401"@) || has_substring(
        error,
        "GitHub API error: 403"@,
    ) || has_substring(error, "GitHub API error: 404"@))
}

/// How long the loop sleeps between two ticks where no interval is set, in
/// seconds.
pub const DEFAULT_POLLING_INTERVAL: u64 = 30;

/// The seconds between two ticks: the setting where it spells a number, else
/// the default.
pub open spec fn interval_of(setting: Option<Seq<char>>) -> u64 {
    match setting {
        Some(text) => match decimal_u64(text) {
            Some(n) => n,
            None => DEFAULT_POLLING_INTERVAL,
        },
        None => DEFAULT_POLLING_INTERVAL,
    }
}

/// The interval that a setting means, from what the setting's text spells.
pub fn interval_or_default(parsed: Option<Option<u64>>) -> (r: u64)
    ensures
        r == match parsed {
            Some(Some(n)) => n,
            _ => DEFAULT_POLLING_INTERVAL,
        },
{
    match parsed {
        Some(Some(n)) => n,
        _ => DEFAULT_POLLING_INTERVAL,
    }
}

/// The store after an action on the item `id` at the time `now`.
pub open spec fn action_applied(db: DatabaseView, id: Seq<char>, action: ActionView, now: Seq<char>) -> DatabaseView {
    db.change_items(|it: ItemView| it.id == id, |it: ItemView| applied(it, action, now))
}

/// The store after a failed poll of the item `id` of the type `item_type`.
pub open spec fn error_recorded(
    db: DatabaseView,
    id: Seq<char>,
    item_type: Seq<char>,
    error: Seq<char>,
    now: Seq<char>,
) -> DatabaseView {
    db.poll_error_recorded(id, error, permanent_error(item_type, error), now)
}

/// What is asked of an outside service for an item.
pub enum PollRequest {
    Slack(SlackRequest),
    GithubAction(GithubRequest),
    GithubPr(GithubRequest),
    OpenCode(AgentPlan),
}

/// A credential of a store.
pub open spec fn credential(db: DatabaseView, key: Seq<char>) -> Option<Seq<char>> {
    if db.credentials.contains_key(key) {
        Some(db.credentials[key])
    } else {
        None
    }
}

/// The loop's hold on the store.
pub struct PollingManager {
    pub db: Database,
}

impl PollingManager {
    /// A loop over the given store.
    pub fn new(db: Database) -> (r: Self)
        ensures
            r.db == db,
    {
        PollingManager { db }
    }

    /// Whether a failure of an item of the given type is for good.
    pub fn is_permanent_github_error(item_type: &str, error: &str) -> (r: bool)
        ensures
            r == permanent_error(item_type@, error@),
    {
        if !str_eq(item_type, "github_action") && !str_eq(item_type, "github_pr") {
            return false;
        }
        contains(error, "GitHub API error: 401") || contains(error, "GitHub API error: 403")
            || contains(error, "GitHub API error: 404")
    }

    /// The seconds to sleep before the next tick, read from the settings anew.
    pub fn polling_interval(&self) -> (r: u64)
        ensures
            r == interval_of(
                if self.db@.settings.contains_key("polling_interval"@) {
                    Some(self.db@.settings["polling_interval"@])
                } else {
                    None
                },
            ),
    {
        let parsed = match self.db.get_setting("polling_interval") {
            Some(text) => Some(parse_u64(text.as_str())),
            None => None,
        };
        interval_or_default(parsed)
    }

    /// Plans the poll of an item: which service is asked, and for what.
    /// `None` where no adapter polls items of this type; an error where the
    /// item or the credentials lack what the poll needs.
    pub fn plan_poll(&self, item: &Item, has_context: bool) -> (r: Option<Result<PollRequest, String>>)
        ensures
            item@.item_type == "slack_thread"@ ==> (r matches Some(Ok(PollRequest::Slack(req)))
                && slack_request_spec(item@, credential(self.db@, "slack_token"@)) == Ok::<
                (Seq<char>, Seq<char>, Seq<char>),
                Seq<char>,
            >((req.token@, req.channel_id@, req.thread_ts@))) || (r matches Some(Err(e))
                && slack_request_spec(item@, credential(self.db@, "slack_token"@)) == Err::<
                (Seq<char>, Seq<char>, Seq<char>),
                Seq<char>,
            >(e@)),
            item@.item_type == "github_action"@ ==> (r matches Some(
                Ok(PollRequest::GithubAction(req)),
            ) && github_request_spec(item@, "run_id"@) == Ok::<
                (Seq<char>, Seq<char>, Seq<char>),
                Seq<char>,
            >((req.owner@, req.repo@, req.number@)) && req.token@ == token_text(
                credential(self.db@, "github_token"@),
            )) || (r matches Some(Err(e)) && github_request_spec(item@, "run_id"@) == Err::<
                (Seq<char>, Seq<char>, Seq<char>),
                Seq<char>,
            >(e@)),
            item@.item_type == "github_pr"@ ==> (r matches Some(Ok(PollRequest::GithubPr(req)))
                && github_request_spec(item@, "pr_number"@) == Ok::<
                (Seq<char>, Seq<char>, Seq<char>),
                Seq<char>,
            >((req.owner@, req.repo@, req.number@)) && req.token@ == token_text(
                credential(self.db@, "github_token"@),
            )) || (r matches Some(Err(e)) && github_request_spec(item@, "pr_number"@) == Err::<
                (Seq<char>, Seq<char>, Seq<char>),
                Seq<char>,
            >(e@)),
            item@.item_type == "opencode_session"@ ==> (r matches Some(
                Ok(PollRequest::OpenCode(plan)),
            ) && plan_view(Ok(plan)) == agent_plan(item@, has_context)) || (r matches Some(Err(e))
                && plan_view(Err(e)) == agent_plan(item@, has_context)),
            r is Some == crate::db::is_polled_type(item@.item_type),
    {
        let t = item.item_type.as_str();
        proof {
            lemma_type_names();
        }
        if str_eq(t, "slack_thread") {
            match slack_request(item, self.db.get_credential("slack_token")) {
                Ok(req) => Some(Ok(PollRequest::Slack(req))),
                Err(e) => Some(Err(e)),
            }
        } else if str_eq(t, "github_action") {
            match github_request(item, self.db.get_credential("github_token"), "run_id") {
                Ok(req) => Some(Ok(PollRequest::GithubAction(req))),
                Err(e) => Some(Err(e)),
            }
        } else if str_eq(t, "github_pr") {
            match github_request(item, self.db.get_credential("github_token"), "pr_number") {
                Ok(req) => Some(Ok(PollRequest::GithubPr(req))),
                Err(e) => Some(Err(e)),
            }
        } else if str_eq(t, "opencode_session") {
            match opencode_plan(item, has_context) {
                Ok(plan) => Some(Ok(PollRequest::OpenCode(plan))),
                Err(e) => Some(Err(e)),
            }
        } else {
            None
        }
    }

    /// Ends the poll of an item at the time `now`: what a poll came to is
    /// written, and a failure is recorded. A failure of one item touches no
    /// other item.
    pub fn finish_poll_at(&mut self, item: &Item, outcome: &Result<PollAction, String>, now: &str) -> (r:
        Result<(), StoreError>)
        ensures
            r is Ok == has_id(old(self).db@.items, item@.id),
            r matches Err(e) ==> e == StoreError::NotFound,
            final(self).db@ == match *outcome {
                Ok(action) => action_applied(old(self).db@, item@.id, action@, now@),
                Err(e) => error_recorded(old(self).db@, item@.id, item@.item_type, e@, now@),
            },
    {
        match outcome {
            Ok(action) => self.apply_at(item.id.as_str(), action, now),
            Err(e) => self.record_error_at(
                item.id.as_str(),
                item.item_type.as_str(),
                e.as_str(),
                now,
            ),
        }
    }

    /// Writes what a poll of the item `id` came to, at the time `now`, in one
    /// step: status, previous status, metadata, times and acknowledgement.
    pub fn apply_at(&mut self, id: &str, action: &PollAction, now: &str) -> (r: Result<(), StoreError>)
        ensures
            r is Ok == has_id(old(self).db@.items, id@),
            r matches Err(e) ==> e == StoreError::NotFound,
            final(self).db@ == action_applied(old(self).db@, id@, action@, now@),
    {
        match action {
            PollAction::Touch => {
                let known = self.db.get_item(id).is_some();
                self.db.touch_item_check_at(id, now);
                proof {
                    crate::db::lemma_change_same(
                        old(self).db@,
                        |it: ItemView| it.id == id@,
                        |it: ItemView| it.touched(now@),
                        |it: ItemView| it.id == id@,
                        |it: ItemView| applied(it, action@, now@),
                    );
                }
                if known {
                    Ok(())
                } else {
                    Err(StoreError::NotFound)
                }
            },
            PollAction::Update(t) => {
                let r = self.db.write_status_at(
                    id,
                    t.status.as_str(),
                    Some(&t.metadata),
                    t.checked,
                    now,
                );
                proof {
                    crate::db::lemma_change_same(
                        old(self).db@,
                        |it: ItemView| it.id == id@,
                        |it: ItemView|
                            it.with_status(t.status@, Some(t.metadata@), now@).with_checked(
                                t.checked,
                            ),
                        |it: ItemView| it.id == id@,
                        |it: ItemView| applied(it, action@, now@),
                    );
                }
                r
            },
        }
    }

    /// Records at the time `now` that the poll of an item failed. A failure
    /// for good moves the item to `failed`, once; any other failure leaves
    /// status and previous status as they are.
    pub fn record_error_at(&mut self, id: &str, item_type: &str, error: &str, now: &str) -> (r: Result<
        (),
        StoreError,
    >)
        ensures
            r is Ok == has_id(old(self).db@.items, id@),
            r matches Err(e) ==> e == StoreError::NotFound,
            final(self).db@ == error_recorded(old(self).db@, id@, item_type@, error@, now@),
    {
        let mark_failed = Self::is_permanent_github_error(item_type, error);
        self.db.update_item_poll_error_at(id, error, mark_failed, now)
    }
}

/// The names of the metadata members that the engine writes are different
/// names.
proof fn lemma_member_names()
    ensures
        "channel_id"@ != "message_count"@,
        "thread_ts"@ != "message_count"@,
        "owner"@ != "repo"@,
        "owner"@ != "run_id"@,
        "repo"@ != "run_id"@,
        "owner"@ != "pr_number"@,
        "repo"@ != "pr_number"@,
        "owner"@ != "review_count"@,
        "repo"@ != "review_count"@,
        "pr_number"@ != "review_count"@,
        "opencode_url"@ != "directory"@,
{
    reveal_strlit("channel_id");
    reveal_strlit("message_count");
    reveal_strlit("thread_ts");
    reveal_strlit("owner");
    reveal_strlit("repo");
    reveal_strlit("run_id");
    reveal_strlit("pr_number");
    reveal_strlit("review_count");
    reveal_strlit("opencode_url");
    reveal_strlit("directory");
    assert("channel_id"@.len() == 10 && "message_count"@.len() == 13 && "thread_ts"@.len() == 9);
    assert("owner"@.len() == 5 && "repo"@.len() == 4 && "run_id"@.len() == 6);
    assert("pr_number"@.len() == 9 && "review_count"@.len() == 12);
    assert("opencode_url"@.len() == 12 && "directory"@.len() == 9);
}

/// The names of the types of item are different names.
proof fn lemma_type_names()
    ensures
        "slack_thread"@ != "github_action"@,
        "slack_thread"@ != "github_pr"@,
        "slack_thread"@ != "opencode_session"@,
        "github_action"@ != "github_pr"@,
        "github_action"@ != "opencode_session"@,
        "github_pr"@ != "opencode_session"@,
{
    reveal_strlit("slack_thread");
    reveal_strlit("github_action");
    reveal_strlit("github_pr");
    reveal_strlit("opencode_session");
    assert("slack_thread"@.len() == 12 && "github_action"@.len() == 13);
    assert("github_pr"@.len() == 9 && "opencode_session"@.len() == 16);
}

/// The names of the statuses are different names.
proof fn lemma_status_names()
    ensures
        "archived"@ != "waiting"@,
        "archived"@ != "in_progress"@,
        "archived"@ != "completed"@,
        "archived"@ != "failed"@,
        "completed"@ != "in_progress"@,
{
    reveal_strlit("archived");
    reveal_strlit("waiting");
    reveal_strlit("in_progress");
    reveal_strlit("completed");
    reveal_strlit("failed");
    assert("archived"@.len() == 8 && "waiting"@.len() == 7 && "in_progress"@.len() == 11);
    assert("completed"@.len() == 9 && "failed"@.len() == 6);
}

/// A poll that changed nothing leaves an item as it is, but for the time of
/// the last check.
pub proof fn law_touch_keeps_item(item: ItemView, now: Seq<char>)
    ensures
        applied(item, ActionView::Touch, now) == (ItemView { last_checked_at: Some(now), ..item }),
{
}

/// Polling a chat thread again while the thread is as it was changes
/// nothing but the time of the last check: status, previous status and
/// metadata stay. Left out is an answer without a count of messages that
/// meets a stored count below nought: it counts as new at every poll.
pub proof fn law_repoll_slack(
    item: ItemView,
    channel_id: Seq<char>,
    thread_ts: Seq<char>,
    result: Fields,
    first: Seq<char>,
    second: Seq<char>,
)
    requires
        count_at(result, "message_count"@) > count_at(item.metadata, "message_count"@) ==> int_at(
            result,
            "message_count"@,
        ) is Some,
    ensures
        ({
            let once = applied(item, slack_action(item, channel_id, thread_ts, result), first);
            slack_action(once, channel_id, thread_ts, result) == ActionView::Touch && applied(
                once,
                slack_action(once, channel_id, thread_ts, result),
                second,
            ) == (ItemView { last_checked_at: Some(second), ..once })
        }),
{
    lemma_member_names();
}

/// Polling a CI run again while the run is as it was changes nothing but the
/// time of the last check.
pub proof fn law_repoll_github_action(
    item: ItemView,
    owner: Seq<char>,
    repo: Seq<char>,
    run_id: Seq<char>,
    result: Fields,
    first: Seq<char>,
    second: Seq<char>,
)
    ensures
        ({
            let once = applied(item, github_action_action(item, owner, repo, run_id, result), first);
            github_action_action(once, owner, repo, run_id, result) == ActionView::Touch && applied(
                once,
                github_action_action(once, owner, repo, run_id, result),
                second,
            ) == (ItemView { last_checked_at: Some(second), ..once })
        }),
{
    lemma_member_names();
}

/// Whether a pull request counts as updated for no other reason than a
/// review that came since the last poll. Such an item goes back to in
/// progress at the next poll, though nothing changed at the code host.
pub open spec fn updated_by_count_alone(item: ItemView, result: Fields) -> bool {
    &&& more_reviews(item, result)
    &&& !flag_at(result, "merged"@)
    &&& text_at(result, "state"@) != Some("closed"@)
    &&& !flag_at(result, "has_approval"@)
    &&& !flag_at(result, "has_changes_requested"@)
}

/// Polling a pull request again while it is as it was changes nothing but
/// the time of the last check, unless the first poll counted it as updated
/// for a new review alone. Left out too is an answer without a count of
/// reviews that meets a stored count below nought.
pub proof fn law_repoll_github_pr(
    item: ItemView,
    owner: Seq<char>,
    repo: Seq<char>,
    pr_number: Seq<char>,
    result: Fields,
    first: Seq<char>,
    second: Seq<char>,
)
    requires
        !updated_by_count_alone(item, result),
        more_reviews(item, result) ==> int_at(result, "review_count"@) is Some,
    ensures
        ({
            let once = applied(item, github_pr_action(item, owner, repo, pr_number, result), first);
            github_pr_action(once, owner, repo, pr_number, result) == ActionView::Touch && applied(
                once,
                github_pr_action(once, owner, repo, pr_number, result),
                second,
            ) == (ItemView { last_checked_at: Some(second), ..once })
        }),
{
    lemma_member_names();
}

/// Polling an agent session again while the session is as it was changes
/// nothing but the time of the last check.
pub proof fn law_repoll_opencode(
    item: ItemView,
    base_url: Seq<char>,
    session_id: Seq<char>,
    directory: Option<Seq<char>>,
    result: Fields,
    sessions: Seq<OpenCodeSession>,
    first: Seq<char>,
    second: Seq<char>,
)
    ensures
        ({
            let once = applied(
                item,
                agent_action(item, base_url, session_id, directory, result, sessions),
                first,
            );
            agent_action(once, base_url, session_id, directory, result, sessions)
                == ActionView::Touch && applied(
                once,
                agent_action(once, base_url, session_id, directory, result, sessions),
                second,
            ) == (ItemView { last_checked_at: Some(second), ..once })
        }),
{
    lemma_member_names();
}

/// An agent session whose session is archived, or gone, becomes archived and
/// acknowledged in one update.
pub proof fn law_archived_is_acknowledged(
    item: ItemView,
    base_url: Seq<char>,
    session_id: Seq<char>,
    directory: Option<Seq<char>>,
    result: Fields,
    sessions: Seq<OpenCodeSession>,
    now: Seq<char>,
)
    requires
        remote_archived(sessions, session_id),
        item.status != "archived"@,
    ensures
        ({
            let after = applied(
                item,
                agent_action(item, base_url, session_id, directory, result, sessions),
                now,
            );
            after.status == "archived"@ && after.checked && after.previous_status == Some(
                item.status,
            )
        }),
{
}

/// An item that a poll takes from `completed` or `failed` to `waiting` or
/// `in_progress` comes back to the user's attention: its acknowledgement is
/// cleared in the same update.
pub proof fn law_active_again_is_unchecked(
    item: ItemView,
    status: Seq<char>,
    metadata: Fields,
    notification: Option<Seq<char>>,
    now: Seq<char>,
)
    requires
        is_terminal(item.status),
        is_active(status),
    ensures
        ({
            let after = applied(item, update_of(item, status, metadata, notification), now);
            after.status == status && !after.checked
        }),
{
    lemma_status_names();
}

/// What a poll came to is written to the polled item alone: every other item
/// stays as it is, whether the poll gave an answer or failed, and so do the
/// credentials and the settings.
pub proof fn law_poll_touches_one_item(
    db: DatabaseView,
    id: Seq<char>,
    item_type: Seq<char>,
    action: ActionView,
    error: Seq<char>,
    now: Seq<char>,
    j: int,
)
    requires
        0 <= j < db.items.len(),
        db.items[j].id != id,
    ensures
        action_applied(db, id, action, now).items.len() == db.items.len(),
        action_applied(db, id, action, now).items[j] == db.items[j],
        action_applied(db, id, action, now).credentials == db.credentials,
        action_applied(db, id, action, now).settings == db.settings,
        error_recorded(db, id, item_type, error, now).items.len() == db.items.len(),
        error_recorded(db, id, item_type, error, now).items[j] == db.items[j],
        error_recorded(db, id, item_type, error, now).credentials == db.credentials,
        error_recorded(db, id, item_type, error, now).settings == db.settings,
{
}

/// A failure for good of an item of the code host moves it to `failed` once:
/// while the failure lasts, the status stays `failed` and the previous
/// status stays the one from before the first failure.
pub proof fn law_permanent_error_fails_once(
    item: ItemView,
    error: Seq<char>,
    again: Seq<char>,
    first: Seq<char>,
    second: Seq<char>,
)
    requires
        permanent_error(item.item_type, error),
        permanent_error(item.item_type, again),
        item.status != "failed"@,
    ensures
        ({
            let once = item.with_poll_error(error, permanent_error(item.item_type, error), first);
            let twice = once.with_poll_error(again, permanent_error(once.item_type, again), second);
            &&& once.status == "failed"@
            &&& once.previous_status == Some(item.status)
            &&& twice.status == "failed"@
            &&& twice.previous_status == Some(item.status)
            &&& twice.last_updated_at == once.last_updated_at
        }),
{
}

/// An item of the code host that was polled holds the fields by which it is
/// polled: a poll stores those that the metadata lacked.
pub proof fn law_poll_stores_identity(
    item: ItemView,
    owner: Seq<char>,
    repo: Seq<char>,
    number: Seq<char>,
    result: Fields,
    now: Seq<char>,
)
    ensures
        !lacks_ids(
            applied(item, github_action_action(item, owner, repo, number, result), now).metadata,
            "run_id"@,
        ),
        !lacks_ids(
            applied(item, github_pr_action(item, owner, repo, number, result), now).metadata,
            "pr_number"@,
        ),
{
    lemma_member_names();
}

/// An agent session that was polled in a working directory holds that
/// directory, or the one that it held before: the next poll needs no lookup.
pub proof fn law_poll_stores_directory(
    item: ItemView,
    base_url: Seq<char>,
    session_id: Seq<char>,
    directory: Seq<char>,
    result: Fields,
    sessions: Seq<OpenCodeSession>,
    now: Seq<char>,
)
    ensures
        text_at(
            applied(
                item,
                agent_action(item, base_url, session_id, Some(directory), result, sessions),
                now,
            ).metadata,
            "directory"@,
        ) is Some,
{
    lemma_member_names();
}

/// Every update that an adapter asks for carries the acknowledgement that
/// its change of status asks for.
pub proof fn law_adapters_update_alike(
    item: ItemView,
    a: Seq<char>,
    b: Seq<char>,
    c: Seq<char>,
    directory: Option<Seq<char>>,
    result: Fields,
    sessions: Seq<OpenCodeSession>,
)
    ensures
        slack_action(item, a, b, result) matches ActionView::Update { status, checked, .. }
            ==> checked == checked_after(item.status, status),
        github_action_action(item, a, b, c, result) matches ActionView::Update {
            status,
            checked,
            ..
        } ==> checked == checked_after(item.status, status),
        github_pr_action(item, a, b, c, result) matches ActionView::Update {
            status,
            checked,
            ..
        } ==> checked == checked_after(item.status, status),
        agent_action(item, a, b, directory, result, sessions) matches ActionView::Update {
            status,
            checked,
            ..
        } ==> checked == checked_after(item.status, status),
{
}

} // verus!
