use in_the_loop::services::url_parser::{parse_url, thread_ts, ParseUrlError};

#[test]
fn test_parse_slack_url() {
    let url = "https://myworkspace.slack.com/archives/C12345678/p1234567890123456";
    let result = parse_url(url).unwrap();
    assert_eq!(result.item_type, "slack_thread");
    assert_eq!(result.metadata.get("channel_id").unwrap(), "C12345678");
    assert_eq!(result.metadata.get("thread_ts").unwrap(), "1234567890.123456");
}

#[test]
fn test_parse_github_action_url() {
    let url = "https://github.com/owner/repo/actions/runs/12345678";
    let result = parse_url(url).unwrap();
    assert_eq!(result.item_type, "github_action");
    assert_eq!(result.metadata.get("owner").unwrap(), "owner");
    assert_eq!(result.metadata.get("repo").unwrap(), "repo");
    assert_eq!(result.metadata.get("run_id").unwrap(), "12345678");
}

#[test]
fn test_parse_github_pr_url() {
    let url = "https://github.com/owner/repo/pull/42";
    let result = parse_url(url).unwrap();
    assert_eq!(result.item_type, "github_pr");
    assert_eq!(result.metadata.get("owner").unwrap(), "owner");
    assert_eq!(result.metadata.get("repo").unwrap(), "repo");
    assert_eq!(result.metadata.get("pr_number").unwrap(), "42");
}

#[test]
fn parse_url_suggests_titles() {
    let slack = parse_url("https://x.slack.com/archives/C1/p12345").unwrap();
    assert_eq!(slack.suggested_title, "Slack thread in C1");
    assert_eq!(slack.metadata.get("thread_ts").unwrap(), "12345");
    let action = parse_url("https://github.com/o/r/actions/runs/7").unwrap();
    assert_eq!(action.suggested_title, "GitHub Action: o/r #7");
    let pr = parse_url("http://github.com/o/r/pull/9/files").unwrap();
    assert_eq!(pr.suggested_title, "PR: o/r #9");
}

#[test]
fn parse_url_rejects_other_urls() {
    let r = parse_url("https://example.com/nothing");
    assert!(matches!(r, Err(ParseUrlError::Unsupported)));
    assert_eq!(
        ParseUrlError::Unsupported.message(),
        "Unsupported URL format. Expected Slack thread, GitHub Action, or GitHub PR URL."
    );
    assert!(parse_url("").is_err());
    assert!(parse_url("https://github.com/owner/repo").is_err());
}

#[test]
fn parse_url_finds_the_shape_inside_a_text() {
    let r = parse_url("see https://github.com/a/b/pull/3 please").unwrap();
    assert_eq!(r.item_type, "github_pr");
    assert_eq!(r.metadata.get("pr_number").unwrap(), "3");
}

#[test]
fn thread_ts_puts_a_point_after_ten_bytes() {
    assert_eq!(thread_ts("1234567890123456"), "1234567890.123456");
    assert_eq!(thread_ts("1234567890"), "1234567890.");
    assert_eq!(thread_ts("123456789"), "123456789");
    assert_eq!(thread_ts(""), "");
}
