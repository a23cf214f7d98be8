use in_the_loop::json::Metadata;
use in_the_loop::services::github_actions::{
    advance_fetch, check_github_action, cli_not_found, cli_token, github_api_error, http_precheck,
    start_fetch, Attempt, FetchProgress, FetchState, FetchStep, WorkflowRun, ACTION_FETCH_LABEL,
    PR_FETCH_LABEL,
};
use in_the_loop::services::github_pr::{any_review, check_github_pr, pair_error, PullRequest, Review};
use in_the_loop::services::opencode::{
    build_web_url, directory_from_segments, enumerate_opencode_directories, find_session_directory,
    get_session_message_summary, parse_opencode_url, poll_opencode_session, status_name, title_for,
    MessageEntry, MessageInfo, OpenCodeSession, SessionStatus, SessionStatuses, SessionTime,
    StatusKind, TokenUsage,
};
use in_the_loop::services::slack::{check_slack_thread, SlackMessage, SlackResponse};

fn next(state: FetchState, attempt: Attempt<u32>, label: &str) -> FetchState {
    match advance_fetch(state, attempt, label) {
        FetchProgress::Continue(s) => s,
        FetchProgress::Done(_) => panic!("the fetch ended"),
    }
}

fn done(state: FetchState, attempt: Attempt<u32>, label: &str) -> Result<u32, String> {
    match advance_fetch(state, attempt, label) {
        FetchProgress::Done(r) => r,
        FetchProgress::Continue(_) => panic!("the fetch goes on"),
    }
}

#[test]
fn fetch_falls_back_from_http_to_the_client() {
    let s = start_fetch();
    assert_eq!(s.step, FetchStep::Http);
    assert_eq!(done(start_fetch(), Attempt::Fetched(7), ACTION_FETCH_LABEL), Ok(7));
    let s = next(s, Attempt::Refused("GitHub API error: 401 Unauthorized".to_string()), ACTION_FETCH_LABEL);
    assert_eq!(s.step, FetchStep::CliWithToken);
    assert_eq!(done(FetchState { step: s.step, http_error: s.http_error.clone(), token_error: None }, Attempt::Fetched(8), ACTION_FETCH_LABEL), Ok(8));
    let s = next(s, Attempt::Refused("bad credentials".to_string()), ACTION_FETCH_LABEL);
    assert_eq!(s.step, FetchStep::CliLocalAuth);
    assert_eq!(s.http_error, Some("GitHub API error: 401 Unauthorized".to_string()));
    assert_eq!(s.token_error, Some("bad credentials".to_string()));
    let failed = done(s, Attempt::Refused("not logged in".to_string()), ACTION_FETCH_LABEL);
    assert_eq!(
        failed,
        Err("GitHub polling failed via HTTP and gh CLI | http: GitHub API error: 401 Unauthorized | gh: gh api failed with token and with local auth | with token: bad credentials | local auth: not logged in".to_string())
    );
}

#[test]
fn fetch_stops_where_the_client_is_broken() {
    let s = next(start_fetch(), Attempt::Broken("GitHub token not configured".to_string()), PR_FETCH_LABEL);
    assert_eq!(s.step, FetchStep::CliWithToken);
    let failed = done(s, Attempt::Broken(cli_not_found()), PR_FETCH_LABEL);
    assert_eq!(
        failed,
        Err("GitHub PR polling failed via HTTP and gh CLI | http: GitHub token not configured | gh: GitHub CLI not found (`gh` not installed)".to_string())
    );
    let s = next(start_fetch(), Attempt::Refused("h".to_string()), PR_FETCH_LABEL);
    let s = next(s, Attempt::Refused("t".to_string()), PR_FETCH_LABEL);
    assert_eq!(
        done(s, Attempt::Broken("expected value at line 1".to_string()), PR_FETCH_LABEL),
        Err("GitHub PR polling failed via HTTP and gh CLI | http: h | gh: expected value at line 1".to_string())
    );
    let s = next(start_fetch(), Attempt::Refused("h".to_string()), PR_FETCH_LABEL);
    let s = next(s, Attempt::Refused("t".to_string()), PR_FETCH_LABEL);
    assert_eq!(done(s, Attempt::Fetched(3), PR_FETCH_LABEL), Ok(3));
}

#[test]
fn github_tokens_and_errors() {
    assert_eq!(http_precheck("  \n"), Err("GitHub token not configured".to_string()));
    assert_eq!(http_precheck(""), Err("GitHub token not configured".to_string()));
    assert_eq!(http_precheck("ghp_1"), Ok(()));
    assert_eq!(cli_token(" "), None);
    assert_eq!(cli_token(" ghp "), Some(" ghp "));
    assert_eq!(github_api_error("404 Not Found", "", None), "GitHub API error: 404 Not Found");
    assert_eq!(github_api_error("404 Not Found", " \n", None), "GitHub API error: 404 Not Found");
    assert_eq!(
        github_api_error("403 Forbidden", "{\"message\":\"no\"}", Some("required; url=https://x")),
        "GitHub API error: 403 Forbidden | {\"message\":\"no\"} | x-github-sso: required; url=https://x"
    );
    assert_eq!(github_api_error("500", "", Some("s")), "GitHub API error: 500 | x-github-sso: s");
    let ok: Result<String, String> = Ok("body".to_string());
    let bad: Result<String, String> = Err("HTTP 404".to_string());
    assert_eq!(pair_error(&ok, &bad), "pr: none | reviews: HTTP 404");
    assert_eq!(pair_error(&bad, &ok), "pr: HTTP 404 | reviews: none");
}

#[test]
fn github_answers_become_metadata() {
    let run = WorkflowRun {
        id: 9,
        name: "CI".to_string(),
        status: "completed".to_string(),
        conclusion: None,
        created_at: "c".to_string(),
        updated_at: "u".to_string(),
    };
    assert_eq!(
        check_github_action(&run).to_json().ok().unwrap(),
        r#"{"conclusion":null,"name":"CI","status":"completed","updated_at":"u"}"#
    );
    let pr = PullRequest {
        number: 1,
        title: "T".to_string(),
        state: "open".to_string(),
        merged: false,
        draft: true,
        updated_at: "u".to_string(),
    };
    let reviews = vec![
        Review { state: "COMMENTED".to_string(), submitted_at: None },
        Review { state: "APPROVED".to_string(), submitted_at: Some("s".to_string()) },
    ];
    assert!(any_review(&reviews, "APPROVED"));
    assert!(!any_review(&reviews, "CHANGES_REQUESTED"));
    assert!(!any_review(&vec![], "APPROVED"));
    assert_eq!(
        check_github_pr(&pr, &reviews).to_json().ok().unwrap(),
        r#"{"draft":true,"has_approval":true,"has_changes_requested":false,"merged":false,"review_count":2,"state":"open","title":"T","updated_at":"u"}"#
    );
}

#[test]
fn slack_answers_become_metadata_or_errors() {
    let failed = SlackResponse { ok: false, messages: None, error: Some("channel_not_found".to_string()) };
    assert_eq!(check_slack_thread(&failed, "1.0").err(), Some("Slack API error: channel_not_found".to_string()));
    let silent = SlackResponse { ok: false, messages: None, error: None };
    assert_eq!(check_slack_thread(&silent, "1.0").err(), Some("Slack API error: Unknown error".to_string()));
    let empty = SlackResponse { ok: true, messages: None, error: None };
    assert_eq!(
        check_slack_thread(&empty, "1.0").ok().unwrap().to_json().ok().unwrap(),
        r#"{"latest_ts":"1.0","message_count":0,"messages":[]}"#
    );
    let one = SlackResponse {
        ok: true,
        messages: Some(vec![SlackMessage {
            msg_type: "message".to_string(),
            user: None,
            text: "hi".to_string(),
            ts: "2.0".to_string(),
        }]),
        error: Some("ignored".to_string()),
    };
    assert_eq!(
        check_slack_thread(&one, "1.0").ok().unwrap().to_json().ok().unwrap(),
        r#"{"latest_ts":"2.0","message_count":1,"messages":[{"text":"hi","ts":"2.0","type":"message","user":null}]}"#
    );
}

#[test]
fn opencode_address_is_read() {
    let config = parse_opencode_url("http://localhost:4096/L2hvbWUvbWU=/session/abc").ok().unwrap();
    assert_eq!(config.base_url, "http://localhost:4096");
    assert_eq!(config.directory, Some("/home/me".to_string()));
    let plain = parse_opencode_url("https://Example.COM:443/").ok().unwrap();
    assert_eq!(plain.base_url, "https://example.com");
    assert_eq!(plain.directory, None);
    let odd = parse_opencode_url("http://h:1//not-base64!/x").ok().unwrap();
    assert_eq!(odd.directory, None);
    let not_text = parse_opencode_url("http://h:1/wyg=").ok().unwrap();
    assert_eq!(not_text.directory, None);
    let err = parse_opencode_url("not a url").err().unwrap();
    assert_eq!(err.message, "relative URL without a base");
    assert!(parse_opencode_url("").is_err());
    assert_eq!(directory_from_segments(&vec!["".to_string(), "L3c=".to_string(), "x".to_string()]), Some("/w".to_string()));
    assert_eq!(directory_from_segments(&vec![]), None);
}

#[test]
fn web_url_names_the_directory() {
    assert_eq!(build_web_url("http://localhost:4096", "/home/me"), "http://localhost:4096/L2hvbWUvbWU=");
    assert_eq!(build_web_url("http://h", ""), "http://h/");
    assert_eq!(build_web_url("http://h", "/é"), "http://h/L8Op");
    let back = parse_opencode_url(&build_web_url("http://h:8", "/srv/my project")).ok().unwrap();
    assert_eq!(back.directory, Some("/srv/my project".to_string()));
    assert_eq!(back.base_url, "http://h:8");
}

fn titled(id: &str, title: &str) -> OpenCodeSession {
    OpenCodeSession {
        id: id.to_string(),
        title: title.to_string(),
        directory: String::new(),
        parent_id: None,
        time: SessionTime { created: 0, updated: 0, archived: None },
    }
}

#[test]
fn session_titles() {
    assert_eq!(title_for(&titled("ses_123456789", "Mine")), "Mine");
    assert_eq!(title_for(&titled("ses_123456789", "")), "OpenCode Session ses_1234");
    assert_eq!(title_for(&titled("short", "")), "OpenCode Session short");
    assert_eq!(title_for(&titled("", "")), "OpenCode Session ");
    assert_eq!(title_for(&titled("ééééxxxx", "")), "OpenCode Session éééé");
    assert_eq!(title_for(&titled("aaaaaaaé", "")), "OpenCode Session aaaaaaa");
}

fn message(role: &str, agent: Option<&str>, tokens: Option<(u64, u64, u64)>, model: Option<&str>) -> MessageEntry {
    MessageEntry {
        info: Some(MessageInfo {
            role: role.to_string(),
            agent: agent.map(|a| a.to_string()),
            tokens: tokens.map(|(input, output, reasoning)| TokenUsage { input, output, reasoning }),
            model_id: model.map(|m| m.to_string()),
        }),
    }
}

#[test]
fn messages_are_summed_up() {
    let entries = vec![
        message("user", Some(""), Some((1000, 1000, 1000)), Some("not counted")),
        MessageEntry { info: None },
        message("assistant", Some("build"), Some((10, 20, 3)), Some("model-a")),
        message("assistant", Some("plan"), None, Some("")),
        message("assistant", None, Some((1, 1, 1)), Some("model-b")),
        message("assistant", None, Some((5, 0, 0)), None),
    ];
    let s = get_session_message_summary(&entries, "0.125");
    assert_eq!(s.message_count, 5);
    assert_eq!(s.total_tokens, 41);
    assert_eq!(s.model, Some("model-b".to_string()));
    assert_eq!(s.agent, Some("build".to_string()));
    assert_eq!(s.total_cost, "0.125");
    let none = get_session_message_summary(&vec![], "0.0");
    assert_eq!((none.message_count, none.total_tokens), (0, 0));
    assert_eq!((none.model, none.agent), (None, None));
    let huge = vec![
        message("assistant", None, Some((u64::MAX, 1, 0)), None),
        message("assistant", None, Some((5, 0, 0)), None),
    ];
    assert_eq!(get_session_message_summary(&huge, "0").total_tokens, u64::MAX);
}

#[test]
fn session_poll_becomes_metadata() {
    let mut statuses = SessionStatuses::new();
    statuses.insert("s1", &SessionStatus::Retry { attempt: 1, message: "m".to_string(), next: 2 });
    let summary = get_session_message_summary(
        &vec![message("assistant", Some("build"), Some((1, 2, 3)), Some("m1"))],
        "0.5",
    );
    assert_eq!(
        poll_opencode_session("s1", &statuses, &summary).to_json().ok().unwrap(),
        r#"{"agent":"build","message_count":1,"model":"m1","session_id":"s1","session_status":"retry","total_cost":0.5,"total_tokens":6}"#
    );
    let empty = get_session_message_summary(&vec![], "not a number");
    assert_eq!(
        poll_opencode_session("s2", &statuses, &empty).to_json().ok().unwrap(),
        r#"{"agent":null,"message_count":0,"model":null,"session_id":"s2","session_status":"unknown","total_tokens":0}"#
    );
    assert_eq!(status_name(Some(StatusKind::Idle)), "idle");
    assert_eq!(status_name(Some(StatusKind::Busy)), "busy");
    assert_eq!(status_name(None), "unknown");
}

#[test]
fn stored_session_files_name_directories() {
    assert_eq!(find_session_directory(r#"{"id":"s","directory":"/w"}"#), Some("/w".to_string()));
    assert_eq!(find_session_directory(r#"{"id":"s"}"#), None);
    assert_eq!(find_session_directory(r#"{"directory":5}"#), None);
    assert_eq!(find_session_directory("[]"), None);
    assert_eq!(find_session_directory("broken"), None);
    let dirs = enumerate_opencode_directories(&vec![
        r#"{"directory":"/a"}"#.to_string(),
        "broken".to_string(),
        r#"{"directory":"/b"}"#.to_string(),
        r#"{"directory":"/a"}"#.to_string(),
    ]);
    assert_eq!(dirs, vec!["/a", "/b", "/a"]);
    let m = Metadata::from_json(r#"{"directory":"/a"}"#).unwrap();
    assert_eq!(m.get_str("directory"), Some("/a".to_string()));
}
