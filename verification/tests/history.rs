use socket_server_manager::logs::persisted_window;
use socket_server_manager::audit::{AuditEntry, AuditManager, AuditQuery};
use socket_server_manager::logs::LogManager;
use socket_server_manager::paging::{sort_desc, str_less, take_page};
use socket_server_manager::types::{LogEntry, LogFilter, LogLevel};

fn sample(action: &str, target_type: &str) -> AuditEntry {
    AuditEntry {
        id: "id".to_string(),
        timestamp: "2026-08-19T10:00:00Z".to_string(),
        actor: "admin".to_string(),
        action: action.to_string(),
        target_type: target_type.to_string(),
        target_id: Some("srv-1".to_string()),
        detail: Some("{\"note\":\"test\"}".to_string()),
        result: "success".to_string(),
    }
}

fn query(limit: i64, offset: i64, action: Option<&str>, target_type: Option<&str>) -> AuditQuery {
    AuditQuery {
        limit,
        offset,
        action: action.map(|a| a.to_string()),
        target_type: target_type.map(|t| t.to_string()),
    }
}

#[test]
fn record_and_query_roundtrip() {
    let mut mgr = AuditManager::new(Vec::new());
    mgr.record(sample("server_start", "server"));
    let page = mgr.query(&query(10, 0, None, None));
    assert_eq!(page.total, 1);
    assert_eq!(page.items.len(), 1);
    assert_eq!(page.items[0].action, "server_start");
    assert_eq!(page.items[0].actor, "admin");
    assert_eq!(page.items[0].target_type, "server");
    assert_eq!(page.items[0].target_id.as_deref(), Some("srv-1"));
    assert_eq!(page.items[0].detail.as_deref(), Some("{\"note\":\"test\"}"));
}

#[test]
fn query_filters_by_action_and_type() {
    let mut mgr = AuditManager::new(Vec::new());
    mgr.record(sample("server_start", "server"));
    mgr.record(sample("server_stop", "server"));
    mgr.record(sample("mock_remove", "mock"));
    let page = mgr.query(&query(10, 0, Some("server_stop"), None));
    assert_eq!(page.total, 1);
    assert_eq!(page.items[0].action, "server_stop");
    let page = mgr.query(&query(10, 0, None, Some("mock")));
    assert_eq!(page.total, 1);
    assert_eq!(page.items[0].target_type, "mock");
}

#[test]
fn pagination_returns_offset_items() {
    let mut mgr = AuditManager::new(Vec::new());
    for i in 0..5 {
        let mut e = sample("server_start", "server");
        e.timestamp = format!("2026-08-19T10:00:0{}Z", i);
        e.id = format!("id-{}", i);
        mgr.record(e);
    }
    let page = mgr.query(&query(2, 2, None, None));
    assert_eq!(page.total, 5);
    assert_eq!(page.items.len(), 2);
    assert_eq!(page.items[0].id, "id-2");
    assert_eq!(page.items[1].id, "id-1");
    let all = mgr.query(&query(-1, -3, None, None));
    assert_eq!(all.items.len(), 5);
    assert_eq!(all.items[0].id, "id-4");
    assert_eq!(mgr.query(&query(10, 9, None, None)).items.len(), 0);
}

fn mk_entry(server_id: Option<&str>, level: LogLevel, msg: &str) -> LogEntry {
    let mut e = LogEntry::default();
    e.server_id = server_id.map(|s| s.to_string());
    e.level = level;
    e.event = "test".to_string();
    e.message = msg.to_string();
    e
}

#[test]
fn persisted_roundtrip_and_filter() {
    let mut m = LogManager::new("/tmp/ssm_hist".to_string());
    let mut stored = Vec::new();
    stored.push(m.add_entry(mk_entry(Some("s1"), LogLevel::Info, "info-1")));
    stored.push(m.add_entry(mk_entry(Some("s1"), LogLevel::Error, "err-1")));
    stored.push(m.add_entry(mk_entry(Some("s2"), LogLevel::Debug, "dbg-2")));

    let (total, items) = LogManager::query_persisted(&stored, &LogFilter::default(), 100, 0);
    assert_eq!(total, 3);
    assert_eq!(items.len(), 3);
    assert_eq!(items[0].message, "dbg-2", "时间倒序（同秒按 id 倒序，最后写入在前）");
    assert_eq!(items[0].level, LogLevel::Debug);

    let mut f = LogFilter::default();
    f.server_id = Some("s1".to_string());
    let (total, items) = LogManager::query_persisted(&stored, &f, 100, 0);
    assert_eq!(total, 2);
    assert!(items.iter().all(|e| e.server_id.as_deref() == Some("s1")));

    let mut f = LogFilter::default();
    f.level = Some(LogLevel::Warn);
    let (total, items) = LogManager::query_persisted(&stored, &f, 100, 0);
    assert_eq!(total, 1);
    assert_eq!(items[0].message, "err-1");

    let mut f = LogFilter::default();
    f.keyword = Some("info".to_string());
    let (total, items) = LogManager::query_persisted(&stored, &f, 100, 0);
    assert_eq!(total, 1);
    assert_eq!(items[0].message, "info-1");

    let (total, items) = LogManager::query_persisted(&stored, &LogFilter::default(), 2, 0);
    assert_eq!(total, 3);
    assert_eq!(items.len(), 2);
    let (_, items2) = LogManager::query_persisted(&stored, &LogFilter::default(), 2, 2);
    assert_eq!(items2.len(), 1);
}

#[test]
fn equal_timestamps_order_by_id() {
    let mut a = mk_entry(None, LogLevel::Info, "a");
    a.timestamp = "2024-01-01T00:00:00Z".to_string();
    a.id = "1".to_string();
    let mut b = a.clone();
    b.id = "2".to_string();
    b.message = "b".to_string();
    let (_, items) = LogManager::query_persisted(&vec![a, b], &LogFilter::default(), -1, 0);
    assert_eq!(items[0].message, "b");
}

#[test]
fn text_order_and_pages() {
    assert!(str_less("a", "b"));
    assert!(str_less("ab", "abc"));
    assert!(!str_less("abc", "ab"));
    assert!(!str_less("x", "x"));
    assert!(str_less("Z", "a"));
    assert_eq!(take_page(vec![1, 2, 3, 4], 2, 1), vec![2, 3]);
    assert_eq!(take_page(vec![1, 2, 3, 4], -1, 3), vec![4]);
    assert_eq!(take_page(vec![1, 2, 3, 4], 0, 0), Vec::<i32>::new());
    let mut e1 = mk_entry(None, LogLevel::Info, "old");
    e1.timestamp = "2024-01-01".to_string();
    let mut e2 = mk_entry(None, LogLevel::Info, "new");
    e2.timestamp = "2024-02-01".to_string();
    let sorted = sort_desc(vec![e1, e2]);
    assert_eq!(sorted[0].message, "new");
}

#[test]
fn persisted_window_defaults_and_bounds() {
    assert_eq!(persisted_window(None, None), (100, 0));
    assert_eq!(persisted_window(Some("20"), Some("40")), (20, 40));
    assert_eq!(persisted_window(Some("0"), Some("-5")), (1, 0));
    assert_eq!(persisted_window(Some("5000"), Some("x")), (1000, 0));
    assert_eq!(persisted_window(Some("abc"), Some("+7")), (100, 7));
}
