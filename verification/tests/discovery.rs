use in_the_loop::db::{Database, Item};
use in_the_loop::discovery::{discovery_enabled, Discovery};
use in_the_loop::polling::PollingManager;
use in_the_loop::services::opencode::{
    OpenCodeSession, SessionStatus, SessionStatuses, SessionTime,
};

fn session(id: &str, title: &str, parent: Option<&str>, archived: Option<i64>) -> OpenCodeSession {
    OpenCodeSession {
        id: id.to_string(),
        title: title.to_string(),
        directory: "/work".to_string(),
        parent_id: parent.map(|p| p.to_string()),
        time: SessionTime { created: 10, updated: 20, archived },
    }
}

fn listing() -> Vec<OpenCodeSession> {
    vec![
        session("ses_busy", "Refactor", None, None),
        session("ses_child", "helper", Some("ses_busy"), None),
        session("ses_idle", "", None, None),
        session("ses_archived", "Old", None, Some(5)),
        session("ses_retry", "Retry", None, None),
        session("ses_busy", "Refactor again", None, None),
    ]
}

fn statuses() -> SessionStatuses {
    let mut s = SessionStatuses::new();
    s.insert("ses_busy", &SessionStatus::Busy);
    s.insert("ses_idle", &SessionStatus::Idle);
    s.insert("ses_retry", &SessionStatus::Retry { attempt: 2, message: "m".to_string(), next: 3 });
    s.insert("ses_archived", &SessionStatus::Busy);
    s
}

fn by_session<'a>(items: &'a [Item], session_id: &str) -> Vec<&'a Item> {
    items
        .iter()
        .filter(|i| i.metadata.get_str("session_id").as_deref() == Some(session_id))
        .collect()
}

#[test]
fn discovery_makes_one_item_for_each_top_level_session() {
    let mut manager = PollingManager::new(Database::new());
    let report = manager.discover_opencode_sessions("http://host:4096", "/work", &listing(), &statuses());
    assert_eq!(report.added.len(), 4);
    assert!(report.skipped.is_empty());
    let items = manager.db.get_items(false);
    assert_eq!(items.len(), 4);
    assert!(by_session(&items, "ses_child").is_empty());
    let busy = by_session(&items, "ses_busy");
    assert_eq!(busy.len(), 1);
    assert_eq!(busy[0].item_type, "opencode_session");
    assert_eq!(busy[0].status, "in_progress");
    assert_eq!(busy[0].title, "Refactor");
    assert_eq!(busy[0].url, None);
    assert_eq!(busy[0].previous_status, None);
    assert!(!busy[0].checked);
    assert_eq!(busy[0].metadata.get_str("opencode_url"), Some("http://host:4096/L3dvcms=".to_string()));
    assert_eq!(busy[0].metadata.get_str("directory"), Some("/work".to_string()));
    assert_eq!(busy[0].metadata.get_str("session_status"), Some("busy".to_string()));
    assert_eq!(busy[0].metadata.get_str("session_title"), Some("Refactor".to_string()));
    assert_eq!(busy[0].metadata.get_i64("last_activity"), Some(20));
    let idle = by_session(&items, "ses_idle");
    assert_eq!(idle[0].status, "completed");
    assert_eq!(idle[0].title, "OpenCode Session ses_idle");
    let archived = by_session(&items, "ses_archived");
    assert_eq!(archived[0].status, "archived");
    assert!(archived[0].checked);
    assert_eq!(by_session(&items, "ses_retry")[0].status, "in_progress");
}

#[test]
fn discovery_run_twice_adds_nothing() {
    let mut manager = PollingManager::new(Database::new());
    manager.discover_opencode_sessions("http://host", "/work", &listing(), &statuses());
    let before: Vec<String> = manager.db.get_items(false).iter().map(|i| i.id.clone()).collect();
    let report = manager.discover_opencode_sessions("http://host", "/work", &listing(), &statuses());
    assert!(report.added.is_empty());
    assert!(report.skipped.is_empty());
    let after: Vec<String> = manager.db.get_items(false).iter().map(|i| i.id.clone()).collect();
    assert_eq!(before.len(), 4);
    assert_eq!(before, after);
    // the same session listed under another directory gets no second item either
    manager.discover_opencode_sessions("http://host", "/elsewhere", &listing(), &SessionStatuses::new());
    assert_eq!(manager.db.get_items(false).len(), 4);
}

#[test]
fn discovery_of_one_session() {
    let mut manager = PollingManager::new(Database::new());
    let s = session("ses_1", "One", None, None);
    let none = SessionStatuses::new();
    assert_eq!(manager.discover_session_at("http://h", "/w", &s, &none, "id-1", "t1"), Discovery::Added);
    assert_eq!(manager.discover_session_at("http://h", "/w", &s, &none, "id-2", "t2"), Discovery::Known);
    let other = session("ses_2", "Two", None, None);
    assert_eq!(manager.discover_session_at("http://h", "/w", &other, &none, "id-1", "t3"), Discovery::IdTaken);
    let child = session("ses_3", "Three", Some("ses_1"), None);
    assert_eq!(manager.discover_session_at("http://h", "/w", &child, &none, "id-3", "t4"), Discovery::Child);
    let items = manager.db.get_items(false);
    assert_eq!(items.len(), 1);
    assert_eq!(items[0].id, "id-1");
    assert_eq!(items[0].created_at, "t1");
    assert_eq!(items[0].status, "completed");
    assert_eq!(items[0].metadata.get_str("session_status"), Some("unknown".to_string()));
}

#[test]
fn session_statuses_keep_the_last_note() {
    let mut s = SessionStatuses::new();
    assert_eq!(s.get("a"), None);
    s.insert("a", &SessionStatus::Busy);
    s.insert("a", &SessionStatus::Idle);
    assert_eq!(s.get("a").map(|k| format!("{k:?}")), Some("Idle".to_string()));
    assert_eq!(s.get("b"), None);
}

#[test]
fn discovery_runs_where_the_service_is_set_up_and_well() {
    assert!(discovery_enabled(Some("http://host:4096"), true));
    assert!(!discovery_enabled(Some("http://host:4096"), false));
    assert!(!discovery_enabled(Some(""), true));
    assert!(!discovery_enabled(None, true));
    assert!(!discovery_enabled(None, false));
}

#[test]
fn login_is_read_from_the_credentials() {
    let mut manager = PollingManager::new(Database::new());
    assert!(manager.opencode_login().ok().unwrap().is_none());
    manager.db.save_credential("opencode_url", "");
    manager.db.save_credential("opencode_password", "secret");
    assert!(manager.opencode_login().ok().unwrap().is_none());
    manager.db.save_credential("opencode_url", "http://Host:4096/L3dvcms=/session/x");
    let login = manager.opencode_login().ok().unwrap().unwrap();
    assert_eq!(login.base_url, "http://host:4096");
    assert_eq!(login.password, "secret");
    manager.db.save_credential("opencode_url", "no address");
    assert_eq!(manager.opencode_login().err(), Some("relative URL without a base".to_string()));
    let mut open = PollingManager::new(Database::new());
    open.db.save_credential("opencode_url", "https://example.com");
    let login = open.opencode_login().ok().unwrap().unwrap();
    assert_eq!((login.base_url.as_str(), login.password.as_str()), ("https://example.com", ""));
}

#[test]
fn a_child_with_an_id_of_its_own_is_never_followed() {
    let mut manager = PollingManager::new(Database::new());
    let sessions = vec![
        session("child_first", "c", Some("top"), None),
        session("top", "t", None, Some(7)),
        session("child_last", "c", Some("top"), None),
    ];
    let report = manager.discover_opencode_sessions("http://h", "/work", &sessions, &statuses());
    assert_eq!(report.added.len(), 1);
    assert!(report.skipped.is_empty());
    let items = manager.db.get_items(false);
    assert_eq!(items.len(), 1);
    assert!(by_session(&items, "child_first").is_empty());
    assert!(by_session(&items, "child_last").is_empty());
    let top = by_session(&items, "top");
    assert_eq!(top.len(), 1);
    assert_eq!(top[0].id, report.added[0]);
    assert_eq!(top[0].status, "archived");
    assert!(top[0].checked);
    assert!(!top[0].archived);
    assert_eq!(top[0].previous_status, None);
    assert_eq!(top[0].metadata.get_str("directory"), Some("/work".to_string()));
    assert_eq!(top[0].metadata.get_str("session_status"), Some("unknown".to_string()));
}
