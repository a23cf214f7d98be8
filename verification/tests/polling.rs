use in_the_loop::db::{Database, Item, StoreError};
use in_the_loop::json::Metadata;
use in_the_loop::polling::{
    acknowledgement_after, action_status, github_request, interval_or_default, notification_for,
    opencode_plan, poll_github_action, poll_github_pr, poll_opencode_session, poll_slack_thread,
    resolve_metadata_field, slack_request, AgentPlan, GithubRequest, PollAction, PollRequest,
    PollingManager, SlackRequest,
};
use in_the_loop::services::github_actions::{check_github_action, WorkflowRun};
use in_the_loop::services::github_pr::{check_github_pr, PullRequest, Review};
use in_the_loop::services::opencode::{OpenCodeSession, SessionTime};
use in_the_loop::services::slack::{check_slack_thread, SlackMessage, SlackResponse};

fn item(id: &str, item_type: &str, status: &str, metadata: &str) -> Item {
    Item {
        id: id.to_string(),
        item_type: item_type.to_string(),
        title: "t".to_string(),
        url: None,
        status: status.to_string(),
        previous_status: None,
        metadata: Metadata::from_json(metadata).unwrap(),
        last_checked_at: None,
        last_updated_at: None,
        created_at: "2024-01-01T00:00:00+00:00".to_string(),
        archived: false,
        archived_at: None,
        polling_interval_override: None,
        checked: false,
    }
}

fn run(status: &str, conclusion: Option<&str>) -> WorkflowRun {
    WorkflowRun {
        id: 1,
        name: "build".to_string(),
        status: status.to_string(),
        conclusion: conclusion.map(|c| c.to_string()),
        created_at: "c".to_string(),
        updated_at: "u".to_string(),
    }
}

fn github(owner: &str, repo: &str, number: &str) -> GithubRequest {
    GithubRequest {
        token: "tok".to_string(),
        owner: owner.to_string(),
        repo: repo.to_string(),
        number: number.to_string(),
    }
}

fn thread(count: usize) -> SlackResponse {
    let messages = (0..count)
        .map(|n| SlackMessage {
            msg_type: "message".to_string(),
            user: if n % 2 == 0 { Some("U1".to_string()) } else { None },
            text: format!("m{n}"),
            ts: format!("100.{n}"),
        })
        .collect();
    SlackResponse { ok: true, messages: Some(messages), error: None }
}

fn session(id: &str, archived: Option<i64>) -> OpenCodeSession {
    OpenCodeSession {
        id: id.to_string(),
        title: "Fix it".to_string(),
        directory: "/w".to_string(),
        parent_id: None,
        time: SessionTime { created: 1, updated: 1700, archived },
    }
}

fn update(action: &PollAction) -> (&str, &Metadata, Option<bool>, Option<&str>) {
    match action {
        PollAction::Update(t) => (
            t.status.as_str(),
            &t.metadata,
            t.checked,
            t.notification.as_deref(),
        ),
        PollAction::Touch => panic!("the poll asked for no update"),
    }
}

#[test]
fn ci_run_that_completed_with_success_becomes_completed() {
    let mut manager = PollingManager::new(Database::new());
    let a = item("A", "github_action", "waiting", r#"{"owner":"x","repo":"y","run_id":"1"}"#);
    manager.db.add_item(&a).unwrap();
    let request = match manager.plan_poll(&a, false) {
        Some(Ok(PollRequest::GithubAction(r))) => r,
        _ => panic!("no request for the run"),
    };
    assert_eq!((request.owner.as_str(), request.repo.as_str(), request.number.as_str()), ("x", "y", "1"));
    assert_eq!(request.token, "");
    let result = check_github_action(&run("completed", Some("success")));
    let action = poll_github_action(&a, &request, &result);
    assert_eq!(manager.finish_poll_at(&a, &Ok(action), "now"), Ok(()));
    let after = manager.db.get_item("A").unwrap();
    assert_eq!(after.status, "completed");
    assert_eq!(after.previous_status, Some("waiting".to_string()));
    assert_eq!(after.metadata.get_str("conclusion"), Some("success".to_string()));
    assert_eq!(after.metadata.get_str("name"), Some("build".to_string()));
    assert_eq!(after.metadata.get_str("run_id"), Some("1".to_string()));
    assert_eq!(after.last_updated_at, Some("now".to_string()));
}

#[test]
fn chat_thread_with_more_messages_becomes_updated() {
    let mut manager = PollingManager::new(Database::new());
    manager.db.save_credential("slack_token", "xoxb");
    let a = item(
        "T",
        "slack_thread",
        "waiting",
        r#"{"channel_id":"C1","thread_ts":"100.0","message_count":3}"#,
    );
    manager.db.add_item(&a).unwrap();
    let request = match manager.plan_poll(&a, false) {
        Some(Ok(PollRequest::Slack(r))) => r,
        _ => panic!("no request for the thread"),
    };
    assert_eq!(request.token, "xoxb");
    let result = check_slack_thread(&thread(5), &request.thread_ts).unwrap();
    let action = poll_slack_thread(&a, &request, &result);
    assert_eq!(manager.apply_at("T", &action, "now"), Ok(()));
    let after = manager.db.get_item("T").unwrap();
    assert_eq!(after.status, "updated");
    assert_eq!(after.previous_status, Some("waiting".to_string()));
    assert_eq!(after.metadata.get_i64("message_count"), Some(5));
    assert_eq!(after.metadata.get_str("latest_ts"), Some("100.4".to_string()));
    assert_eq!(after.metadata.get_str("channel_id"), Some("C1".to_string()));
    // polling again while the thread is as it was moves only the time of the check
    let again = poll_slack_thread(&after, &request, &result);
    assert!(matches!(again, PollAction::Touch));
    assert_eq!(manager.apply_at("T", &again, "later"), Ok(()));
    let last = manager.db.get_item("T").unwrap();
    assert_eq!(last.status, "updated");
    assert_eq!(last.previous_status, Some("waiting".to_string()));
    assert_eq!(last.last_updated_at, Some("now".to_string()));
    assert_eq!(last.last_checked_at, Some("later".to_string()));
    assert_eq!(last.metadata.to_json().ok(), after.metadata.to_json().ok());
}

#[test]
fn chat_thread_without_new_messages_is_untouched() {
    let a = item("T", "slack_thread", "updated", r#"{"channel_id":"C","thread_ts":"1","message_count":5}"#);
    let request = SlackRequest { token: "t".into(), channel_id: "C".into(), thread_ts: "1".into() };
    for n in [0, 4, 5] {
        let result = check_slack_thread(&thread(n), "1").unwrap();
        assert!(matches!(poll_slack_thread(&a, &request, &result), PollAction::Touch));
    }
    let result = check_slack_thread(&thread(6), "1").unwrap();
    let action = poll_slack_thread(&a, &request, &result);
    assert_eq!(update(&action).0, "updated");
}

#[test]
fn slack_request_names_what_is_missing() {
    let full = item("T", "slack_thread", "waiting", r#"{"channel_id":"C","thread_ts":"1"}"#);
    assert_eq!(slack_request(&full, None).err(), Some("Slack token not configured".to_string()));
    let r = slack_request(&full, Some("".to_string())).ok().unwrap();
    assert_eq!((r.token.as_str(), r.channel_id.as_str(), r.thread_ts.as_str()), ("", "C", "1"));
    let no_channel = item("T", "slack_thread", "waiting", r#"{"thread_ts":"1"}"#);
    assert_eq!(slack_request(&no_channel, Some("t".into())).err(), Some("Missing channel_id".to_string()));
    let no_ts = item("T", "slack_thread", "waiting", r#"{"channel_id":"C","thread_ts":5}"#);
    assert_eq!(slack_request(&no_ts, Some("t".into())).err(), Some("Missing thread_ts".to_string()));
}

#[test]
fn ci_status_mapping() {
    let some = |s: &str| Some(s.to_string());
    assert_eq!(action_status("queued", &None), "waiting");
    assert_eq!(action_status("waiting", &None), "waiting");
    assert_eq!(action_status("in_progress", &None), "in_progress");
    assert_eq!(action_status("completed", &some("success")), "completed");
    assert_eq!(action_status("completed", &some("failure")), "failed");
    assert_eq!(action_status("completed", &some("cancelled")), "failed");
    assert_eq!(action_status("completed", &some("skipped")), "completed");
    assert_eq!(action_status("completed", &None), "completed");
    assert_eq!(action_status("unknown", &some("failure")), "waiting");
}

#[test]
fn ci_run_fields_are_taken_from_the_url_and_stored() {
    let mut a = item("A", "github_action", "waiting", "{}");
    a.url = Some("https://github.com/o/r/actions/runs/77".to_string());
    assert_eq!(resolve_metadata_field(&a, "owner"), Ok("o".to_string()));
    assert_eq!(resolve_metadata_field(&a, "run_id"), Ok("77".to_string()));
    assert_eq!(resolve_metadata_field(&a, "pr_number"), Err("Missing pr_number".to_string()));
    let request = github_request(&a, Some("tok".to_string()), "run_id").ok().unwrap();
    assert_eq!((request.owner.as_str(), request.repo.as_str(), request.number.as_str()), ("o", "r", "77"));
    assert_eq!(request.token, "tok");
    // the status did not change, yet the fields are written so that the next poll finds them
    let result = check_github_action(&run("queued", None));
    let action = poll_github_action(&a, &request, &result);
    let (status, metadata, checked, note) = update(&action);
    assert_eq!(status, "waiting");
    assert_eq!(metadata.get_str("owner"), Some("o".to_string()));
    assert_eq!(metadata.get_str("repo"), Some("r".to_string()));
    assert_eq!(metadata.get_str("run_id"), Some("77".to_string()));
    assert_eq!(checked, None);
    assert_eq!(note, None);
    let mut stored = item("A", "github_action", "waiting", "{}");
    stored.metadata = metadata.clone();
    assert!(matches!(poll_github_action(&stored, &request, &result), PollAction::Touch));
}

#[test]
fn missing_fields_fail_the_poll() {
    let mut a = item("A", "github_action", "waiting", r#"{"owner":"o"}"#);
    assert_eq!(github_request(&a, None, "run_id").err(), Some("Missing repo".to_string()));
    a.url = Some("https://example.com/".to_string());
    assert_eq!(github_request(&a, None, "run_id").err(), Some("Missing repo".to_string()));
    let b = item("B", "github_pr", "waiting", r#"{"owner":"o","repo":"r"}"#);
    assert_eq!(github_request(&b, None, "pr_number").err(), Some("Missing pr_number".to_string()));
    let c = item("C", "github_pr", "waiting", r#"{}"#);
    assert_eq!(github_request(&c, None, "pr_number").err(), Some("Missing owner".to_string()));
}

fn pull(state: &str, merged: bool) -> PullRequest {
    PullRequest {
        number: 4,
        title: "Add".to_string(),
        state: state.to_string(),
        merged,
        draft: false,
        updated_at: "u".to_string(),
    }
}

fn reviews(states: &[&str]) -> Vec<Review> {
    states.iter().map(|s| Review { state: s.to_string(), submitted_at: None }).collect()
}

#[test]
fn pull_request_statuses() {
    let stored = r#"{"owner":"o","repo":"r","pr_number":"4","review_count":1}"#;
    let request = github("o", "r", "4");
    let a = item("P", "github_pr", "in_progress", stored);
    let quiet = check_github_pr(&pull("open", false), &reviews(&["COMMENTED"]));
    assert!(matches!(poll_github_pr(&a, &request, &quiet), PollAction::Touch));
    let merged = check_github_pr(&pull("open", true), &reviews(&[]));
    assert_eq!(update(&poll_github_pr(&a, &request, &merged)).0, "completed");
    let closed = check_github_pr(&pull("closed", false), &reviews(&["APPROVED"]));
    assert_eq!(update(&poll_github_pr(&a, &request, &closed)).0, "completed");
    let approved = check_github_pr(&pull("open", false), &reviews(&["APPROVED"]));
    assert_eq!(update(&poll_github_pr(&a, &request, &approved)).0, "updated");
    let changes = check_github_pr(&pull("open", false), &reviews(&["CHANGES_REQUESTED"]));
    assert_eq!(update(&poll_github_pr(&a, &request, &changes)).0, "updated");
    let more = check_github_pr(&pull("open", false), &reviews(&["COMMENTED", "COMMENTED"]));
    let action = poll_github_pr(&a, &request, &more);
    let (status, metadata, _, _) = update(&action);
    assert_eq!(status, "updated");
    assert_eq!(metadata.get_i64("review_count"), Some(2));
    assert_eq!(metadata.get_bool("has_approval"), Some(false));
    assert_eq!(metadata.get_str("title"), Some("Add".to_string()));
    // an approval that stands keeps the item updated: polling again touches only
    let mut b = item("P", "github_pr", "updated", stored);
    b.metadata = update(&poll_github_pr(&a, &request, &approved)).1.clone();
    assert!(matches!(poll_github_pr(&b, &request, &approved), PollAction::Touch));
}

#[test]
fn agent_session_plan() {
    let a = item("S", "opencode_session", "completed", r#"{"session_id":"s1","directory":"/w"}"#);
    assert!(matches!(opencode_plan(&a, false), Ok(AgentPlan::Touch)));
    match opencode_plan(&a, true) {
        Ok(AgentPlan::Fetch { session_id, stored_directory }) => {
            assert_eq!(session_id, "s1");
            assert_eq!(stored_directory, Some("/w".to_string()));
        }
        _ => panic!("no fetch planned"),
    }
    let b = item("S", "opencode_session", "completed", r#"{}"#);
    assert_eq!(
        opencode_plan(&b, true).err(),
        Some("Missing session_id in opencode_session metadata".to_string())
    );
    assert!(matches!(opencode_plan(&b, false), Ok(AgentPlan::Touch)));
}

#[test]
fn agent_session_follows_the_agent() {
    let a = item("S", "opencode_session", "completed", r#"{"session_id":"s1","directory":"/w"}"#);
    let sessions = vec![session("s0", None), session("s1", None)];
    let busy = Metadata::from_json(r#"{"session_id":"s1","session_status":"busy","message_count":4}"#).unwrap();
    let action = poll_opencode_session(&a, "http://h:1", "s1", Some("/w"), &busy, &sessions);
    let (status, metadata, checked, note) = update(&action);
    assert_eq!(status, "in_progress");
    assert_eq!(checked, Some(false));
    assert_eq!(note, Some("Agent started working"));
    assert_eq!(metadata.get_str("opencode_url"), Some("http://h:1/L3c=".to_string()));
    assert_eq!(metadata.get_str("directory"), Some("/w".to_string()));
    assert_eq!(metadata.get_str("session_title"), Some("Fix it".to_string()));
    assert_eq!(metadata.get_i64("last_activity"), Some(1700));
    assert_eq!(metadata.get_i64("message_count"), Some(4));
    let working = item("S", "opencode_session", "in_progress", r#"{"session_id":"s1","directory":"/w"}"#);
    for s in ["busy", "retry"] {
        let r = Metadata::from_json(&format!(r#"{{"session_status":"{s}"}}"#)).unwrap();
        assert!(matches!(
            poll_opencode_session(&working, "http://h:1", "s1", Some("/w"), &r, &sessions),
            PollAction::Touch
        ));
    }
    let idle = Metadata::from_json(r#"{"session_status":"idle"}"#).unwrap();
    let done = poll_opencode_session(&working, "http://h:1", "s1", Some("/w"), &idle, &sessions);
    let (status, _, checked, note) = update(&done);
    assert_eq!((status, checked, note), ("completed", None, Some("Waiting for your input")));
    let unknown = Metadata::new();
    let done = poll_opencode_session(&working, "http://h:1", "s1", Some("/w"), &unknown, &sessions);
    assert_eq!(update(&done).0, "completed");
}

#[test]
fn archived_agent_session_is_archived_and_acknowledged() {
    let mut manager = PollingManager::new(Database::new());
    let a = item("S", "opencode_session", "in_progress", r#"{"session_id":"s1","directory":"/w"}"#);
    manager.db.add_item(&a).unwrap();
    let busy = Metadata::from_json(r#"{"session_status":"busy"}"#).unwrap();
    let archived = vec![session("s1", Some(99))];
    let action = poll_opencode_session(&a, "http://h", "s1", Some("/w"), &busy, &archived);
    let (status, _, checked, note) = update(&action);
    assert_eq!((status, checked, note), ("archived", Some(true), Some("Session has been archived")));
    manager.apply_at("S", &action, "now").unwrap();
    let after = manager.db.get_item("S").unwrap();
    assert_eq!(after.status, "archived");
    assert!(after.checked);
    assert_eq!(after.previous_status, Some("in_progress".to_string()));
    // once archived, another poll leaves the acknowledgement to the user
    manager.db.toggle_checked("S", false);
    let after = manager.db.get_item("S").unwrap();
    let again = poll_opencode_session(&after, "http://h", "s1", Some("/w"), &busy, &archived);
    assert!(matches!(again, PollAction::Touch));
    // a session that the service lists no longer counts as archived
    let gone = poll_opencode_session(&a, "http://h", "s1", Some("/w"), &busy, &vec![session("s2", None)]);
    assert_eq!(update(&gone).0, "archived");
}

#[test]
fn agent_session_stores_the_directory_it_was_found_in() {
    let a = item("S", "opencode_session", "completed", r#"{"session_id":"s1"}"#);
    let idle = Metadata::from_json(r#"{"session_status":"idle"}"#).unwrap();
    let sessions = vec![session("s1", None)];
    let action = poll_opencode_session(&a, "http://h", "s1", Some("/w"), &idle, &sessions);
    let (status, metadata, checked, note) = update(&action);
    assert_eq!((status, checked, note), ("completed", None, None));
    assert_eq!(metadata.get_str("directory"), Some("/w".to_string()));
    let without = poll_opencode_session(&a, "http://h", "s1", None, &idle, &sessions);
    assert!(matches!(without, PollAction::Touch));
    let busy = Metadata::from_json(r#"{"session_status":"busy"}"#).unwrap();
    let moved = poll_opencode_session(&a, "http://h", "s1", None, &busy, &sessions);
    assert_eq!(update(&moved).1.get_str("opencode_url"), Some("http://h".to_string()));
    assert_eq!(update(&moved).1.get_str("directory"), None);
}

#[test]
fn acknowledgement_follows_the_change_of_status() {
    assert_eq!(acknowledgement_after("completed", "in_progress"), Some(false));
    assert_eq!(acknowledgement_after("failed", "waiting"), Some(false));
    assert_eq!(acknowledgement_after("completed", "waiting"), Some(false));
    assert_eq!(acknowledgement_after("in_progress", "archived"), Some(true));
    assert_eq!(acknowledgement_after("archived", "archived"), None);
    assert_eq!(acknowledgement_after("waiting", "in_progress"), None);
    assert_eq!(acknowledgement_after("completed", "updated"), None);
    assert_eq!(acknowledgement_after("archived", "in_progress"), None);
    assert_eq!(notification_for("completed", "completed"), None);
    assert_eq!(notification_for("waiting", "completed"), None);
    assert_eq!(notification_for("archived", "archived"), None);
}

#[test]
fn item_that_is_active_again_comes_back_unchecked() {
    let mut manager = PollingManager::new(Database::new());
    let mut a = item("S", "opencode_session", "completed", r#"{"session_id":"s1","directory":"/w"}"#);
    a.checked = true;
    manager.db.add_item(&a).unwrap();
    let busy = Metadata::from_json(r#"{"session_status":"busy"}"#).unwrap();
    let action = poll_opencode_session(&a, "http://h", "s1", Some("/w"), &busy, &vec![session("s1", None)]);
    manager.apply_at("S", &action, "now").unwrap();
    let after = manager.db.get_item("S").unwrap();
    assert_eq!(after.status, "in_progress");
    assert!(!after.checked);
}

#[test]
fn permanent_github_errors() {
    let e401 = "GitHub polling failed via HTTP and gh CLI | http: GitHub API error: 401 Unauthorized | gh: x";
    assert!(PollingManager::is_permanent_github_error("github_action", e401));
    assert!(PollingManager::is_permanent_github_error("github_pr", "GitHub API error: 403"));
    assert!(PollingManager::is_permanent_github_error("github_pr", "x GitHub API error: 404 y"));
    assert!(!PollingManager::is_permanent_github_error("github_pr", "GitHub API error: 500"));
    assert!(!PollingManager::is_permanent_github_error("github_pr", "401"));
    assert!(!PollingManager::is_permanent_github_error("slack_thread", "GitHub API error: 401"));
    assert!(!PollingManager::is_permanent_github_error("opencode_session", e401));
}

#[test]
fn permanent_error_fails_the_item_exactly_once() {
    let mut manager = PollingManager::new(Database::new());
    let a = item("A", "github_action", "waiting", r#"{"owner":"x","repo":"y","run_id":"1"}"#);
    manager.db.add_item(&a).unwrap();
    let outcome: Result<PollAction, String> = Err("GitHub API error: 401 Unauthorized".to_string());
    assert_eq!(manager.finish_poll_at(&a, &outcome, "t1"), Ok(()));
    let once = manager.db.get_item("A").unwrap();
    assert_eq!(once.status, "failed");
    assert_eq!(once.previous_status, Some("waiting".to_string()));
    assert_eq!(manager.record_error_at("A", "github_action", "GitHub API error: 401", "t2"), Ok(()));
    let twice = manager.db.get_item("A").unwrap();
    assert_eq!(twice.status, "failed");
    assert_eq!(twice.previous_status, Some("waiting".to_string()));
    assert_eq!(twice.last_updated_at, Some("t1".to_string()));
    assert_eq!(twice.last_checked_at, Some("t2".to_string()));
    assert_eq!(
        manager.record_error_at("Z", "github_action", "GitHub API error: 401", "t"),
        Err(StoreError::NotFound)
    );
}

#[test]
fn transient_error_is_recorded_and_nothing_else_changes() {
    let mut manager = PollingManager::new(Database::new());
    let a = item("T", "slack_thread", "waiting", r#"{"channel_id":"C"}"#);
    let b = item("B", "github_pr", "in_progress", r#"{}"#);
    manager.db.add_item(&a).unwrap();
    manager.db.add_item(&b).unwrap();
    manager.record_error_at("T", "slack_thread", "GitHub API error: 401", "t1").unwrap();
    manager.record_error_at("B", "github_pr", "connection reset", "t1").unwrap();
    let t = manager.db.get_item("T").unwrap();
    assert_eq!((t.status.as_str(), t.previous_status.as_deref()), ("waiting", None));
    assert_eq!(t.metadata.get_str("last_error"), Some("GitHub API error: 401".to_string()));
    assert_eq!(t.metadata.get_str("channel_id"), Some("C".to_string()));
    let b = manager.db.get_item("B").unwrap();
    assert_eq!((b.status.as_str(), b.previous_status.as_deref()), ("in_progress", None));
}

#[test]
fn plan_poll_knows_the_adapters() {
    let manager = PollingManager::new(Database::new());
    assert!(manager.plan_poll(&item("c", "cli_session", "waiting", "{}"), true).is_none());
    assert!(manager.plan_poll(&item("c", "copilot_agent", "waiting", "{}"), true).is_none());
    let s = manager.plan_poll(&item("s", "slack_thread", "waiting", "{}"), true);
    assert!(matches!(s, Some(Err(e)) if e == "Slack token not configured"));
    let p = manager.plan_poll(&item("p", "github_pr", "waiting", r#"{"owner":"o","repo":"r","pr_number":"2"}"#), true);
    assert!(matches!(p, Some(Ok(PollRequest::GithubPr(r))) if r.number == "2"));
    let o = manager.plan_poll(&item("o", "opencode_session", "completed", r#"{"session_id":"s"}"#), false);
    assert!(matches!(o, Some(Ok(PollRequest::OpenCode(AgentPlan::Touch)))));
}

#[test]
fn polling_interval_is_read_from_the_settings() {
    let mut manager = PollingManager::new(Database::new());
    assert_eq!(manager.polling_interval(), 30);
    manager.db.save_setting("polling_interval", "5");
    assert_eq!(manager.polling_interval(), 5);
    manager.db.save_setting("polling_interval", "-1");
    assert_eq!(manager.polling_interval(), 30);
    manager.db.save_setting("polling_interval", "soon");
    assert_eq!(manager.polling_interval(), 30);
    assert_eq!(interval_or_default(None), 30);
    assert_eq!(interval_or_default(Some(None)), 30);
    assert_eq!(interval_or_default(Some(Some(0))), 0);
}

#[test]
fn apply_to_an_unknown_item_changes_nothing() {
    let mut manager = PollingManager::new(Database::new());
    manager.db.add_item(&item("a", "github_pr", "waiting", "{}")).unwrap();
    assert_eq!(manager.apply_at("zz", &PollAction::Touch, "now"), Err(StoreError::NotFound));
    assert_eq!(manager.db.get_item("a").unwrap().last_checked_at, None);
}
