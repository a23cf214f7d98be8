use in_the_loop::commands::{
    add_item, add_item_at, item_from_url, metadata_of, save_credentials, save_settings,
    AddItemError,
};
use in_the_loop::db::{Credentials, Database, Item, Settings, StoreError};
use in_the_loop::json::Metadata;
use in_the_loop::local_server::{create_session, create_session_at, update_session, update_session_at};
use in_the_loop::services::url_parser::{parse_url, ParseUrlError};
use in_the_loop::string_map::StringMap;
use in_the_loop::tray::{
    badge_title, item_url, menu_item_id, menu_item_target, menu_label, status_emoji, type_label,
    TRAY_ID,
};
use in_the_loop::updater::{download_event, DownloadEvent};

fn item(item_type: &str, status: &str, title: &str, metadata: &str) -> Item {
    Item {
        id: "i".to_string(),
        item_type: item_type.to_string(),
        title: title.to_string(),
        url: Some("https://example.com/x".to_string()),
        status: status.to_string(),
        previous_status: None,
        metadata: Metadata::from_json(metadata).unwrap(),
        last_checked_at: None,
        last_updated_at: None,
        created_at: "c".to_string(),
        archived: false,
        archived_at: None,
        polling_interval_override: None,
        checked: false,
    }
}

#[test]
fn a_url_becomes_a_waiting_item() {
    let mut db = Database::new();
    let url = "https://github.com/o/r/pull/12";
    assert_eq!(add_item_at(&mut db, url, None, "id-1", "t1"), Ok(()));
    let it = db.get_item("id-1").unwrap();
    assert_eq!(it.item_type, "github_pr");
    assert_eq!(it.title, "PR: o/r #12");
    assert_eq!(it.url, Some(url.to_string()));
    assert_eq!(it.status, "waiting");
    assert_eq!(it.previous_status, None);
    assert_eq!(it.created_at, "t1");
    assert_eq!(it.last_checked_at, None);
    assert!(!it.archived && !it.checked);
    assert_eq!(it.metadata.to_json().ok().unwrap(), r#"{"owner":"o","pr_number":"12","repo":"r"}"#);
    assert_eq!(
        add_item_at(&mut db, url, Some("Mine".to_string()), "id-1", "t2"),
        Err(AddItemError::Store(StoreError::DuplicateId))
    );
    assert_eq!(
        add_item_at(&mut db, "https://nowhere", None, "id-2", "t2"),
        Err(AddItemError::Url(ParseUrlError::Unsupported))
    );
    assert_eq!(db.get_items(false).len(), 1);
    let id = add_item(&mut db, "https://a.slack.com/archives/C9/p1700000000123456", Some("Mine".to_string())).unwrap();
    let added = db.get_item(&id).unwrap();
    assert_eq!(added.title, "Mine");
    assert_eq!(added.item_type, "slack_thread");
    assert_eq!(added.metadata.get_str("thread_ts"), Some("1700000000.123456".to_string()));
    assert_eq!(id.len(), 36);
    assert!(add_item(&mut db, "nothing", None).is_err());
    let parsed = parse_url("https://github.com/o/r/actions/runs/5").unwrap();
    let made = item_from_url(parsed, "u", None, "x", "n");
    assert_eq!(made.title, "GitHub Action: o/r #5");
    assert_eq!(made.url, Some("u".to_string()));
}

#[test]
fn string_maps_become_metadata() {
    let mut m = StringMap::new();
    m.insert("b".to_string(), "2".to_string());
    m.insert("a".to_string(), "1".to_string());
    m.insert("b".to_string(), "3".to_string());
    assert_eq!(metadata_of(&m).to_json().ok().unwrap(), r#"{"a":"1","b":"3"}"#);
    assert_eq!(metadata_of(&StringMap::new()).to_json().ok().unwrap(), "{}");
}

#[test]
fn credentials_are_saved_where_given() {
    let mut db = Database::new();
    db.save_credential("github_token", "old");
    db.save_credential("opencode_password", "secret");
    save_credentials(
        &mut db,
        &Credentials {
            slack_token: Some("xoxb".to_string()),
            github_token: Some("".to_string()),
            opencode_url: None,
            opencode_password: Some("".to_string()),
        },
    );
    assert_eq!(db.get_credential("slack_token"), Some("xoxb".to_string()));
    assert_eq!(db.get_credential("github_token"), Some("old".to_string()));
    assert_eq!(db.get_credential("opencode_url"), None);
    assert_eq!(db.get_credential("opencode_password"), Some("".to_string()));
    save_credentials(
        &mut db,
        &Credentials {
            slack_token: None,
            github_token: Some("new".to_string()),
            opencode_url: Some("http://h".to_string()),
            opencode_password: None,
        },
    );
    assert_eq!(db.get_credential("slack_token"), Some("xoxb".to_string()));
    assert_eq!(db.get_credential("github_token"), Some("new".to_string()));
    assert_eq!(db.get_credential("opencode_url"), Some("http://h".to_string()));
    assert_eq!(db.get_credential("opencode_password"), Some("".to_string()));
}

#[test]
fn settings_are_saved_as_text() {
    let mut db = Database::new();
    save_settings(&mut db, &Settings { polling_interval: 120, screen_width: -3 });
    assert_eq!(db.get_setting("polling_interval"), Some("120".to_string()));
    assert_eq!(db.get_setting("screen_width"), Some("-3".to_string()));
    let back = db.get_all_settings();
    assert_eq!((back.polling_interval, back.screen_width), (120, -3));
}

#[test]
fn reported_sessions_are_tracked() {
    let mut db = Database::new();
    assert_eq!(create_session_at(&mut db, "npm test", "Tests", "s1", "t1"), Ok(()));
    let it = db.get_item("s1").unwrap();
    assert_eq!(it.item_type, "cli_session");
    assert_eq!(it.title, "Tests");
    assert_eq!(it.status, "in_progress");
    assert_eq!(it.url, None);
    assert_eq!(it.metadata.to_json().ok().unwrap(), r#"{"command":"npm test"}"#);
    assert_eq!(it.last_checked_at, Some("t1".to_string()));
    assert_eq!(it.last_updated_at, Some("t1".to_string()));
    assert_eq!(it.created_at, "t1");
    assert_eq!(create_session_at(&mut db, "x", "y", "s1", "t2"), Err(StoreError::DuplicateId));
    assert_eq!(update_session_at(&mut db, "s1", "completed", "t3"), Ok(()));
    let it = db.get_item("s1").unwrap();
    assert_eq!(it.status, "completed");
    assert_eq!(it.previous_status, Some("in_progress".to_string()));
    assert_eq!(update_session_at(&mut db, "s2", "completed", "t3"), Err(StoreError::NotFound));
    let id = create_session(&mut db, "make", "Build").unwrap();
    assert_eq!(update_session(&mut db, &id, "anything goes"), Ok(()));
    assert_eq!(db.get_item(&id).unwrap().status, "anything goes");
    assert_eq!(update_session(&mut db, "nope", "x"), Err(StoreError::NotFound));
}

#[test]
fn tray_labels() {
    assert_eq!(TRAY_ID, "main-tray");
    let expected = [
        ("waiting", "\u{23F3}"),
        ("in_progress", "\u{1F504}"),
        ("updated", "\u{1F514}"),
        ("approved", "\u{1F44D}"),
        ("merged", "\u{1F7E3}"),
        ("completed", "\u{2705}"),
        ("failed", "\u{274C}"),
        ("archived", "\u{1F4E6}"),
        ("closed", "\u{2753}"),
        ("", "\u{2753}"),
    ];
    for (status, emoji) in expected {
        assert_eq!(status_emoji(status), emoji);
    }
    let labels = [
        ("slack_thread", "Slack"),
        ("github_action", "Action"),
        ("github_pr", "PR"),
        ("copilot_agent", "Copilot"),
        ("cli_session", "CLI"),
        ("opencode_session", "OpenCode"),
        ("other", "Item"),
    ];
    for (item_type, label) in labels {
        assert_eq!(type_label(item_type), label);
    }
    assert_eq!(menu_label(&item("github_pr", "waiting", "Short", "{}")), "\u{23F3} [PR] Short");
    let forty = "a".repeat(40);
    assert_eq!(menu_label(&item("x", "merged", &forty, "{}")), format!("\u{1F7E3} [Item] {forty}"));
    let long = "b".repeat(41);
    assert_eq!(
        menu_label(&item("cli_session", "failed", &long, "{}")),
        format!("\u{274C} [CLI] {}...", "b".repeat(37))
    );
    let accents = "é".repeat(21);
    assert_eq!(
        menu_label(&item("cli_session", "failed", &accents, "{}")),
        format!("\u{274C} [CLI] {}...", "é".repeat(18))
    );
}

#[test]
fn tray_targets_and_badge() {
    assert_eq!(item_url(&item("github_pr", "waiting", "t", "{}")), Some("https://example.com/x".to_string()));
    let agent = item("opencode_session", "completed", "t", r#"{"opencode_url":"http://h/L3c=","session_id":"s1"}"#);
    assert_eq!(item_url(&agent), Some("http://h/L3c=/session/s1".to_string()));
    assert_eq!(item_url(&item("opencode_session", "completed", "t", r#"{"session_id":"s1"}"#)), None);
    assert_eq!(item_url(&item("opencode_session", "completed", "t", r#"{"opencode_url":"u"}"#)), None);
    assert_eq!(menu_item_id("abc"), "item:abc");
    assert_eq!(menu_item_target("item:abc"), Some("abc"));
    assert_eq!(menu_item_target("item:"), Some(""));
    assert_eq!(menu_item_target("show"), None);
    assert_eq!(badge_title(3), Some("3".to_string()));
    assert_eq!(badge_title(0), None);
    assert_eq!(badge_title(-1), None);
}

#[test]
fn download_events() {
    assert_eq!(download_event(10, Some(100)), DownloadEvent::Started { content_length: Some(100) });
    assert_eq!(download_event(10, None), DownloadEvent::Progress { chunk_length: 10 });
    assert_ne!(download_event(0, None), DownloadEvent::Finished);
}
