use in_the_loop::db::{should_poll, sort_newest_first, Database, Item, StoreError};
use in_the_loop::json::Metadata;

fn item(id: &str, item_type: &str, status: &str, created_at: &str) -> Item {
    Item {
        id: id.to_string(),
        item_type: item_type.to_string(),
        title: format!("title {id}"),
        url: None,
        status: status.to_string(),
        previous_status: None,
        metadata: Metadata::new(),
        last_checked_at: None,
        last_updated_at: None,
        created_at: created_at.to_string(),
        archived: false,
        archived_at: None,
        polling_interval_override: None,
        checked: false,
    }
}

fn with_metadata(mut it: Item, json: &str) -> Item {
    it.metadata = Metadata::from_json(json).unwrap();
    it
}

fn ids(items: &[Item]) -> Vec<String> {
    items.iter().map(|i| i.id.clone()).collect()
}

#[test]
fn new_store_has_default_settings() {
    let db = Database::new();
    assert!(db.get_items(false).is_empty());
    assert!(db.get_items(true).is_empty());
    assert_eq!(db.get_setting("polling_interval"), Some("30".to_string()));
    assert_eq!(db.get_setting("screen_width"), Some("400".to_string()));
    assert_eq!(db.get_setting("other"), None);
    assert_eq!(db.get_credential("slack_token"), None);
    let s = db.get_all_settings();
    assert_eq!(s.polling_interval, 30);
    assert_eq!(s.screen_width, 400);
}

#[test]
fn settings_fall_back_to_defaults() {
    let mut db = Database::new();
    db.save_setting("polling_interval", "45");
    db.save_setting("screen_width", "wide");
    let s = db.get_all_settings();
    assert_eq!(s.polling_interval, 45);
    assert_eq!(s.screen_width, 400);
    db.save_setting("polling_interval", "-5");
    assert_eq!(db.get_all_settings().polling_interval, -5);
    db.save_setting("polling_interval", "");
    assert_eq!(db.get_all_settings().polling_interval, 30);
}

#[test]
fn credentials_are_stored_by_key() {
    let mut db = Database::new();
    db.save_credential("github_token", "abc");
    db.save_credential("github_token", "def");
    assert_eq!(db.get_credential("github_token"), Some("def".to_string()));
    assert_eq!(db.get_credential("slack_token"), None);
}

#[test]
fn add_item_refuses_a_second_item_of_the_same_id() {
    let mut db = Database::new();
    assert_eq!(db.add_item(&item("a", "github_pr", "waiting", "2024-01-01")), Ok(()));
    assert_eq!(
        db.add_item(&item("a", "slack_thread", "updated", "2024-01-02")),
        Err(StoreError::DuplicateId)
    );
    let all = db.get_items(false);
    assert_eq!(all.len(), 1);
    assert_eq!(all[0].item_type, "github_pr");
    assert!(db.get_item("a").is_some());
    assert!(db.get_item("b").is_none());
}

#[test]
fn get_items_lists_newest_first() {
    let mut db = Database::new();
    db.add_item(&item("old", "github_pr", "waiting", "2024-01-01T00:00:00+00:00")).unwrap();
    db.add_item(&item("new", "github_pr", "waiting", "2024-03-01T00:00:00+00:00")).unwrap();
    db.add_item(&item("mid", "github_pr", "waiting", "2024-02-01T00:00:00+00:00")).unwrap();
    let mut archived = item("arch", "github_pr", "waiting", "2024-04-01T00:00:00+00:00");
    archived.archived = true;
    db.add_item(&archived).unwrap();
    assert_eq!(ids(&db.get_items(false)), vec!["new", "mid", "old"]);
    assert_eq!(ids(&db.get_items(true)), vec!["arch"]);
}

#[test]
fn sort_keeps_the_order_of_items_made_at_the_same_time() {
    let sorted = sort_newest_first(vec![
        item("a", "t", "s", "2"),
        item("b", "t", "s", "3"),
        item("c", "t", "s", "2"),
        item("d", "t", "s", "1"),
        item("e", "t", "s", "3"),
    ]);
    assert_eq!(ids(&sorted), vec!["b", "e", "a", "c", "d"]);
}

#[test]
fn update_status_keeps_the_status_before_as_previous() {
    let mut db = Database::new();
    db.add_item(&item("a", "github_action", "waiting", "2024-01-01")).unwrap();
    db.add_item(&item("b", "github_action", "waiting", "2024-01-02")).unwrap();
    let meta = Metadata::from_json(r#"{"k":"v"}"#).unwrap();
    assert_eq!(db.update_item_status_at("a", "in_progress", Some(&meta), "t1"), Ok(()));
    let a = db.get_item("a").unwrap();
    assert_eq!(a.status, "in_progress");
    assert_eq!(a.previous_status, Some("waiting".to_string()));
    assert_eq!(a.last_checked_at, Some("t1".to_string()));
    assert_eq!(a.last_updated_at, Some("t1".to_string()));
    assert_eq!(a.metadata.get_str("k"), Some("v".to_string()));
    assert_eq!(db.update_item_status_at("a", "completed", None, "t2"), Ok(()));
    let a = db.get_item("a").unwrap();
    assert_eq!(a.status, "completed");
    assert_eq!(a.previous_status, Some("in_progress".to_string()));
    assert_eq!(a.metadata.get_str("k"), Some("v".to_string()));
    assert_eq!(db.update_item_status_at("a", "completed", None, "t3"), Ok(()));
    assert_eq!(db.get_item("a").unwrap().previous_status, Some("completed".to_string()));
    let b = db.get_item("b").unwrap();
    assert_eq!(b.status, "waiting");
    assert_eq!(b.previous_status, None);
    assert_eq!(b.last_checked_at, None);
    assert_eq!(
        db.update_item_status_at("missing", "completed", None, "t4"),
        Err(StoreError::NotFound)
    );
}

#[test]
fn update_status_now_stamps_the_current_time() {
    let mut db = Database::new();
    db.add_item(&item("a", "cli_session", "in_progress", "2024-01-01")).unwrap();
    assert_eq!(db.update_item_status("a", "completed", None), Ok(()));
    let a = db.get_item("a").unwrap();
    assert_eq!(a.previous_status, Some("in_progress".to_string()));
    let stamp = a.last_checked_at.unwrap();
    assert_eq!(a.last_updated_at, Some(stamp.clone()));
    assert!(stamp.len() >= 20 && stamp.contains('T'));
    assert_eq!(db.update_item_status("zz", "completed", None), Err(StoreError::NotFound));
}

#[test]
fn touch_moves_only_the_time_of_the_last_check() {
    let mut db = Database::new();
    let mut it = item("a", "github_pr", "updated", "2024-01-01");
    it.previous_status = Some("in_progress".to_string());
    it.last_updated_at = Some("u".to_string());
    db.add_item(&it).unwrap();
    db.touch_item_check_at("a", "t9");
    db.touch_item_check_at("missing", "t9");
    let a = db.get_item("a").unwrap();
    assert_eq!(a.last_checked_at, Some("t9".to_string()));
    assert_eq!(a.last_updated_at, Some("u".to_string()));
    assert_eq!(a.status, "updated");
    assert_eq!(a.previous_status, Some("in_progress".to_string()));
    db.touch_item_check("a");
    assert_ne!(db.get_item("a").unwrap().last_checked_at, Some("t9".to_string()));
}

#[test]
fn poll_error_marks_failed_once() {
    let mut db = Database::new();
    db.add_item(&with_metadata(item("a", "github_action", "waiting", "c"), r#"{"owner":"x"}"#))
        .unwrap();
    assert_eq!(db.update_item_poll_error_at("a", "GitHub API error: 401", true, "t1"), Ok(()));
    let a = db.get_item("a").unwrap();
    assert_eq!(a.status, "failed");
    assert_eq!(a.previous_status, Some("waiting".to_string()));
    assert_eq!(a.last_updated_at, Some("t1".to_string()));
    assert_eq!(a.metadata.get_str("last_error"), Some("GitHub API error: 401".to_string()));
    assert_eq!(a.metadata.get_str("last_error_at"), Some("t1".to_string()));
    assert_eq!(a.metadata.get_str("owner"), Some("x".to_string()));
    assert_eq!(db.update_item_poll_error_at("a", "again", true, "t2"), Ok(()));
    let a = db.get_item("a").unwrap();
    assert_eq!(a.status, "failed");
    assert_eq!(a.previous_status, Some("waiting".to_string()));
    assert_eq!(a.last_checked_at, Some("t2".to_string()));
    assert_eq!(a.last_updated_at, Some("t1".to_string()));
    assert_eq!(a.metadata.get_str("last_error"), Some("again".to_string()));
    assert_eq!(
        db.update_item_poll_error_at("none", "e", true, "t"),
        Err(StoreError::NotFound)
    );
}

#[test]
fn transient_poll_error_leaves_the_status() {
    let mut db = Database::new();
    let mut it = item("a", "slack_thread", "updated", "c");
    it.previous_status = Some("waiting".to_string());
    db.add_item(&it).unwrap();
    assert_eq!(db.update_item_poll_error_at("a", "timeout", false, "t1"), Ok(()));
    let a = db.get_item("a").unwrap();
    assert_eq!(a.status, "updated");
    assert_eq!(a.previous_status, Some("waiting".to_string()));
    assert_eq!(a.last_checked_at, Some("t1".to_string()));
    assert_eq!(a.last_updated_at, None);
    assert_eq!(a.metadata.get_str("last_error"), Some("timeout".to_string()));
    assert_eq!(db.update_item_poll_error("a", "later", false), Ok(()));
    assert_eq!(db.get_item("a").unwrap().metadata.get_str("last_error"), Some("later".to_string()));
}

#[test]
fn title_checked_and_removal() {
    let mut db = Database::new();
    db.add_item(&item("a", "github_pr", "waiting", "1")).unwrap();
    db.add_item(&item("b", "github_pr", "waiting", "2")).unwrap();
    db.update_item_title("a", "renamed");
    db.toggle_checked("a", true);
    let a = db.get_item("a").unwrap();
    assert_eq!(a.title, "renamed");
    assert!(a.checked);
    assert!(!db.get_item("b").unwrap().checked);
    db.toggle_checked("a", false);
    assert!(!db.get_item("a").unwrap().checked);
    db.remove_item("a");
    db.remove_item("never");
    assert_eq!(ids(&db.get_items(false)), vec!["b"]);
}

#[test]
fn archive_and_unarchive() {
    let mut db = Database::new();
    let mut a = item("a", "github_pr", "waiting", "1");
    a.checked = true;
    db.add_item(&a).unwrap();
    db.add_item(&item("b", "github_pr", "waiting", "2")).unwrap();
    db.add_item(&item("c", "github_pr", "waiting", "3")).unwrap();
    db.archive_item_at("a", "t1");
    let a = db.get_item("a").unwrap();
    assert!(a.archived);
    assert!(!a.checked);
    assert_eq!(a.archived_at, Some("t1".to_string()));
    db.archive_items_at(&vec!["b".to_string(), "zz".to_string()], "t2");
    assert_eq!(ids(&db.get_items(true)), vec!["b", "a"]);
    assert_eq!(ids(&db.get_items(false)), vec!["c"]);
    db.unarchive_item("a");
    let a = db.get_item("a").unwrap();
    assert!(!a.archived);
    assert_eq!(a.archived_at, None);
    db.archive_item("c");
    db.archive_items(&vec!["a".to_string()]);
    assert_eq!(db.get_items(false).len(), 0);
    assert!(db.get_item("c").unwrap().archived_at.is_some());
}

#[test]
fn cleanup_removes_what_was_archived_before_the_cutoff() {
    let mut db = Database::new();
    for (id, at) in [("a", "2024-01-01T00:00:00+00:00"), ("b", "2024-01-10T00:00:00+00:00")] {
        db.add_item(&item(id, "github_pr", "waiting", "c")).unwrap();
        db.archive_item_at(id, at);
    }
    let mut odd = item("c", "github_pr", "waiting", "c");
    odd.archived = true;
    db.add_item(&odd).unwrap();
    db.add_item(&item("d", "github_pr", "waiting", "c")).unwrap();
    assert_eq!(db.cleanup_archived_before("2024-01-05T00:00:00+00:00"), 1);
    assert_eq!(ids(&db.get_items(true)).len(), 2);
    assert!(db.get_item("a").is_none());
    assert!(db.get_item("b").is_some());
    assert!(db.get_item("c").is_some());
    assert_eq!(db.cleanup_archived_before("2024-01-05T00:00:00+00:00"), 0);
    assert_eq!(db.cleanup_old_archived(), 1);
    assert!(db.get_item("b").is_none());
    assert!(db.get_item("c").is_some());
}

#[test]
fn cleanup_without_a_cutoff_removes_nothing() {
    let mut db = Database::new();
    for (id, at) in [("a", "2024-01-01T00:00:00+00:00"), ("b", "2024-01-10T00:00:00+00:00")] {
        db.add_item(&item(id, "github_pr", "waiting", "c")).unwrap();
        db.archive_item_at(id, at);
    }
    assert_eq!(db.cleanup_archived_at(None), 0);
    assert_eq!(ids(&db.get_items(true)).len(), 2);
    assert_eq!(db.cleanup_archived_at(Some("2024-01-05T00:00:00+00:00".to_string())), 1);
    assert!(db.get_item("a").is_none());
    assert!(db.get_item("b").is_some());
    assert_eq!(db.cleanup_archived_at(Some("2024-01-10T00:00:00+00:00".to_string())), 0);
    assert_eq!(db.cleanup_archived_at(Some("2024-01-10T00:00:00+00:01".to_string())), 1);
    assert!(db.get_items(true).is_empty());
}

#[test]
fn archive_closed_and_stale_items() {
    let mut db = Database::new();
    db.add_item(&item("open", "cli_session", "in_progress", "2024-02-01")).unwrap();
    db.add_item(&item("closed", "cli_session", "closed", "2024-02-01")).unwrap();
    let mut old = item("old", "github_pr", "waiting", "2024-01-01");
    old.last_updated_at = Some("2024-02-15".to_string());
    db.add_item(&old).unwrap();
    db.add_item(&item("older", "github_pr", "waiting", "2024-01-01")).unwrap();
    assert_eq!(db.archive_closed_items_at("t1"), 1);
    assert_eq!(db.archive_closed_items_at("t2"), 0);
    assert_eq!(db.get_item("closed").unwrap().archived_at, Some("t1".to_string()));
    assert_eq!(db.archive_stale_items_at("2024-01-15", "t3"), 1);
    assert!(db.get_item("older").unwrap().archived);
    assert!(!db.get_item("old").unwrap().archived);
    assert!(!db.get_item("open").unwrap().archived);
    assert_eq!(db.archive_stale_items("2024-03-01"), 2);
    assert_eq!(db.archive_closed_items(), 0);
}

#[test]
fn visible_and_actionable_items() {
    let mut db = Database::new();
    db.add_item(&item("w", "github_pr", "waiting", "1")).unwrap();
    db.add_item(&item("p", "github_pr", "in_progress", "2")).unwrap();
    db.add_item(&item("i", "cli_session", "input_needed", "3")).unwrap();
    let mut checked = item("c", "github_pr", "completed", "4");
    checked.checked = true;
    db.add_item(&checked).unwrap();
    let mut archived = item("a", "github_pr", "failed", "5");
    archived.archived = true;
    db.add_item(&archived).unwrap();
    for (n, s) in ["completed", "failed", "updated", "approved", "merged"].iter().enumerate() {
        db.add_item(&item(&format!("s{n}"), "github_pr", s, "0")).unwrap();
    }
    db.add_item(&item("x", "github_pr", "closed", "0")).unwrap();
    assert_eq!(db.count_actionable_items(), 7);
    let visible = ids(&db.get_visible_items());
    assert_eq!(visible.len(), 9);
    assert_eq!(&visible[..3], &["i", "p", "w"]);
    assert!(!visible.contains(&"c".to_string()));
    assert!(!visible.contains(&"a".to_string()));
}

#[test]
fn session_ids_are_read_from_metadata() {
    let mut db = Database::new();
    db.add_item(&with_metadata(item("1", "opencode_session", "completed", "1"), r#"{"session_id":"s1"}"#)).unwrap();
    db.add_item(&with_metadata(item("2", "opencode_session", "completed", "2"), r#"{"session_id":7}"#)).unwrap();
    db.add_item(&with_metadata(item("3", "github_pr", "waiting", "3"), r#"{"session_id":"s3"}"#)).unwrap();
    db.add_item(&with_metadata(item("4", "copilot_agent", "waiting", "4"), r#"{"copilot_session_id":"c4"}"#)).unwrap();
    db.add_item(&with_metadata(item("5", "cli_session", "waiting", "5"), r#"{"copilot_session_id":"c5"}"#)).unwrap();
    db.add_item(&item("6", "cli_session", "waiting", "6")).unwrap();
    assert_eq!(db.get_opencode_session_ids(), vec!["s1"]);
    assert_eq!(db.get_copilot_session_ids(), vec!["c4", "c5"]);
    assert!(db.tracks_session("s1"));
    assert!(!db.tracks_session("s3"));
    assert!(!db.tracks_session("7"));
}

#[test]
fn duplicate_agent_items_are_removed() {
    let mut db = Database::new();
    db.add_item(&with_metadata(item("agent", "copilot_agent", "waiting", "1"), r#"{"copilot_session_id":"s"}"#)).unwrap();
    db.add_item(&with_metadata(item("cli", "cli_session", "in_progress", "2"), r#"{"copilot_session_id":"s"}"#)).unwrap();
    db.add_item(&with_metadata(item("other", "copilot_agent", "waiting", "3"), r#"{"copilot_session_id":"t"}"#)).unwrap();
    assert_eq!(db.remove_copilot_agent_by_session_id("s"), vec!["agent"]);
    assert_eq!(ids(&db.get_items(false)), vec!["other", "cli"]);
    assert_eq!(db.remove_copilot_agent_by_session_id("s"), Vec::<String>::new());
}

#[test]
fn other_sessions_of_a_directory_are_closed() {
    let mut db = Database::new();
    db.add_item(&with_metadata(item("same", "cli_session", "in_progress", "1"), r#"{"cwd":"/w","copilot_session_id":"new"}"#)).unwrap();
    db.add_item(&with_metadata(item("old", "copilot_agent", "input_needed", "2"), r#"{"cwd":"/w","copilot_session_id":"old"}"#)).unwrap();
    db.add_item(&with_metadata(item("nosid", "cli_session", "waiting", "3"), r#"{"cwd":"/w"}"#)).unwrap();
    db.add_item(&with_metadata(item("elsewhere", "cli_session", "waiting", "4"), r#"{"cwd":"/x","copilot_session_id":"z"}"#)).unwrap();
    db.add_item(&with_metadata(item("done", "cli_session", "closed", "5"), r#"{"cwd":"/w","copilot_session_id":"d"}"#)).unwrap();
    db.add_item(&with_metadata(item("pr", "github_pr", "waiting", "6"), r#"{"cwd":"/w","copilot_session_id":"p"}"#)).unwrap();
    let closed = db.close_copilot_sessions_at_cwd_at("/w", "new", "t1");
    assert_eq!(closed, vec!["old", "nosid"]);
    let old = db.get_item("old").unwrap();
    assert_eq!(old.status, "closed");
    assert_eq!(old.previous_status, Some("input_needed".to_string()));
    assert_eq!(old.last_updated_at, Some("t1".to_string()));
    assert_eq!(db.get_item("same").unwrap().status, "in_progress");
    assert_eq!(db.get_item("elsewhere").unwrap().status, "waiting");
    assert_eq!(db.get_item("done").unwrap().previous_status, None);
    assert_eq!(db.get_item("pr").unwrap().status, "waiting");
    assert_eq!(db.close_copilot_sessions_at_cwd("/w", "new"), Vec::<String>::new());
    let again = db.close_copilot_sessions_at_cwd("/x", "");
    assert_eq!(again, vec!["elsewhere"]);
    let stamp = db.get_item("elsewhere").unwrap().last_updated_at.unwrap();
    assert_eq!(stamp.len(), 19);
    assert_eq!(&stamp[10..11], " ");
}

#[test]
fn pollable_items() {
    let mut db = Database::new();
    db.add_item(&item("s", "slack_thread", "waiting", "1")).unwrap();
    db.add_item(&item("done", "github_action", "completed", "2")).unwrap();
    db.add_item(&item("failed", "github_pr", "failed", "3")).unwrap();
    db.add_item(&item("agent", "opencode_session", "completed", "4")).unwrap();
    db.add_item(&item("agent-archived", "opencode_session", "archived", "5")).unwrap();
    db.add_item(&item("cli", "cli_session", "in_progress", "6")).unwrap();
    let mut gone = item("gone", "slack_thread", "waiting", "7");
    gone.archived = true;
    db.add_item(&gone).unwrap();
    assert_eq!(ids(&db.get_pollable_items()), vec!["agent-archived", "agent", "s"]);
    assert!(should_poll(&item("x", "github_pr", "updated", "1")));
    assert!(!should_poll(&item("x", "github_pr", "archived", "1")));
    assert!(!should_poll(&item("x", "copilot_agent", "waiting", "1")));
}
