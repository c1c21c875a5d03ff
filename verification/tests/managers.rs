use socket_server_manager::clients::ClientManager;
use socket_server_manager::config::{clamp_or, sanitize_in_place, ConfigManager};
use socket_server_manager::constants::{CLIENT_ID_SEP, LOG_MEMORY_LIMIT};
use socket_server_manager::events::EventManager;
use socket_server_manager::logs::{level_num, split_file_name, LogManager};
use socket_server_manager::services::{resolve_target, scene_result, stop_order, ServiceManager, StartPlan};
use socket_server_manager::adapter::AdapterKind;
use socket_server_manager::error::BackendError;
use socket_server_manager::types::{
    ClientInfo, ClientStatus, EventConfig, EventStatus, LogEntry, LogFilter, LogLevel,
    PersistedConfig, ProtocolType, SceneConfig, ServerConfig, ServerStatus, SystemSettings,
};

// ======================== clients ========================

fn make_client(server_id: &str, id: &str) -> ClientInfo {
    let mut c = ClientInfo::default();
    c.id = id.to_string();
    c.server_id = server_id.to_string();
    c.socket_id = id.to_string();
    c.ip_address = "127.0.0.1".to_string();
    c.status = ClientStatus::Connected;
    c
}

#[test]
fn add_then_list_and_count() {
    let mut m = ClientManager::new();
    m.add(make_client("s1", "c1"));
    let list = m.list();
    assert_eq!(list.len(), 1);
    assert_eq!(list[0].id, "c1");
    assert_eq!(list[0].server_id, "s1");
    assert_eq!(m.count("s1"), 1);
}

#[test]
fn composite_key_separates_servers() {
    let mut m = ClientManager::new();
    m.add(make_client("s1", "shared"));
    m.add(make_client("s2", "shared"));
    assert_eq!(m.list().len(), 2, "two servers keep distinct composite keys");
    assert_eq!(m.count("s1"), 1);
    assert_eq!(m.count("s2"), 1);
    assert_eq!(CLIENT_ID_SEP, "___");
    let s1 = m.get_clients(Some("s1"));
    assert_eq!(s1.len(), 1);
    assert_eq!(s1[0].server_id, "s1");
}

#[test]
fn duplicate_add_overwrites_same_key() {
    let mut m = ClientManager::new();
    m.add(make_client("s1", "a"));
    m.add(make_client("s1", "a"));
    assert_eq!(m.list().len(), 1, "same serverId___id overwrites one entry");
    assert_eq!(m.count("s1"), 1);
}

#[test]
fn get_clients_filter_vs_none() {
    let mut m = ClientManager::new();
    m.add(make_client("s1", "a"));
    m.add(make_client("s2", "b"));
    assert_eq!(m.get_clients(None).len(), 2, "None returns all");
    assert_eq!(m.get_clients(Some("s1")).len(), 1);
    assert_eq!(m.get_clients(Some("nope")).len(), 0);
}

#[test]
fn remove_drops_client() {
    let mut m = ClientManager::new();
    m.add(make_client("s1", "c1"));
    m.remove("s1", "c1");
    assert_eq!(m.list().len(), 0);
    assert_eq!(m.count("s1"), 0);
    m.remove("s1", "c1");
    assert_eq!(m.list().len(), 0, "removing again is a no-op");
}

// ======================== configuration ========================

fn mk_server(id: &str, name: &str) -> ServerConfig {
    let mut s = ServerConfig::default();
    s.id = id.to_string();
    s.name = name.to_string();
    s.port = 3000;
    s.protocol = ProtocolType::Websocket;
    s
}

fn config() -> ConfigManager {
    ConfigManager::new("/tmp/ssm_cfg_test".to_string())
}

#[test]
fn save_and_get_servers_in_memory() {
    let mut cm = config();
    cm.save_servers(vec![mk_server("a", "A"), mk_server("b", "B")]);
    let got = cm.get_servers();
    assert_eq!(got.len(), 2);
    assert_eq!(got[0].id, "a");
    assert_eq!(got[1].id, "b");
    let by_id = cm.get_server_by_id("a").expect("exists");
    assert_eq!(by_id.name, "A");
    assert!(cm.get_server_by_id("missing").is_none());
}

#[test]
fn update_and_remove_server_roundtrip() {
    let mut cm = config();
    cm.save_servers(vec![mk_server("a", "A")]);
    cm.save_servers(vec![mk_server("a", "A-updated")]);
    assert_eq!(cm.get_server_by_id("a").unwrap().name, "A-updated");
    cm.save_servers(vec![]);
    assert!(cm.get_server_by_id("a").is_none());
    assert!(cm.get_servers().is_empty());
}

#[test]
fn export_import_roundtrip() {
    let mut cm = config();
    let cfg = {
        let mut c = cm.export_all();
        c.servers = vec![mk_server("a", "A")];
        c
    };
    cm.import_all(cfg);
    let out = cm.export_all();
    assert_eq!(out.servers.len(), 1);
    assert_eq!(out.servers[0].id, "a");
}

#[test]
fn get_server_by_id_takes_the_first() {
    let mut cm = config();
    cm.save_servers(vec![mk_server("a", "first"), mk_server("a", "second")]);
    assert_eq!(cm.get_server_by_id("a").unwrap().name, "first");
}

#[test]
fn clamp_or_cases() {
    assert_eq!(clamp_or(0, 30_000, 5_000, 300_000), 30_000);
    assert_eq!(clamp_or(1, 30_000, 5_000, 300_000), 5_000);
    assert_eq!(clamp_or(999_999, 30_000, 5_000, 300_000), 300_000);
    assert_eq!(clamp_or(42_000, 30_000, 5_000, 300_000), 42_000);
}

#[test]
fn save_system_settings_clamps_and_names() {
    let mut cm = config();
    let mut s = SystemSettings::default();
    s.heartbeat.ping_interval = 1;
    s.heartbeat.pong_timeout = 0;
    s.log_retention_days = 1000;
    s.max_connections_per_server = 0;
    s.start_minimized = true;
    cm.save_system_settings(s);
    let got = cm.get_system_settings();
    assert_eq!(got.id, "system");
    assert_eq!(got.heartbeat.ping_interval, 5_000);
    assert_eq!(got.heartbeat.pong_timeout, 90_000);
    assert_eq!(got.log_retention_days, 365);
    assert_eq!(got.max_connections_per_server, 1_000);
    assert!(got.start_minimized);
    assert!(!got.updated_at.is_empty());
    assert!(!cm.export_all().exported_at.is_empty());
}

#[test]
fn init_sanitizes_loaded_configuration() {
    let mut cm = config();
    let mut loaded = PersistedConfig::default();
    loaded.servers = vec![mk_server("x", "X")];
    loaded.version = "2.0.0".to_string();
    cm.init(Some(loaded));
    assert_eq!(cm.get_servers()[0].id, "x");
    let s = cm.get_system_settings();
    assert_eq!(s.id, "system");
    assert_eq!(s.log_retention_days, 7);
    assert_eq!(cm.export_all().version, "2.0.0");
    cm.init(None);
    assert_eq!(cm.get_servers().len(), 1);
    let mut p = PersistedConfig::default();
    p.system_settings.id = "keep".to_string();
    sanitize_in_place(&mut p);
    assert_eq!(p.system_settings.id, "keep");
    assert_eq!(p.system_settings.heartbeat.ping_interval, 30_000);
}

// ======================== events ========================

fn mk_event(server_id: &str, name: &str) -> EventConfig {
    let mut e = EventConfig::default();
    e.server_id = server_id.to_string();
    e.name = name.to_string();
    e
}

#[test]
fn add_event_autofills_id_and_timestamps() {
    let mut cm = config();
    let em = EventManager::new();
    let evt = em.add_event(&mut cm, mk_event("s1", "ev1"));
    assert!(!evt.id.is_empty(), "add_event should auto-generate id");
    assert!(!evt.created_at.is_empty());
    assert!(!evt.updated_at.is_empty());
    assert_eq!(evt.status, EventStatus::Enabled);
    assert_eq!(cm.get_events().len(), 1);
}

#[test]
fn toggle_event_flips_enabled_flag() {
    let mut cm = config();
    let em = EventManager::new();
    let evt = em.add_event(&mut cm, mk_event("s1", "ev1"));
    let disabled = em.toggle_event(&mut cm, &evt.id, EventStatus::Disabled).expect("event exists");
    assert_eq!(disabled.status, EventStatus::Disabled);
    assert_eq!(cm.get_events()[0].status, EventStatus::Disabled);
    let enabled = em.toggle_event(&mut cm, &evt.id, EventStatus::Enabled).expect("event exists");
    assert_eq!(enabled.status, EventStatus::Enabled);
    assert_eq!(cm.get_events()[0].status, EventStatus::Enabled);
}

#[test]
fn toggle_missing_event_returns_none() {
    let mut cm = config();
    let em = EventManager::new();
    assert!(em.toggle_event(&mut cm, "nope", EventStatus::Disabled).is_none());
}

#[test]
fn update_event_replaces_fields_keeps_id() {
    let mut cm = config();
    let em = EventManager::new();
    let evt = em.add_event(&mut cm, mk_event("s1", "ev1"));
    let mut updated = mk_event("s2", "ev2");
    updated.server_id = "s2".to_string();
    let result = em.update_event(&mut cm, &evt.id, updated).expect("event exists");
    assert_eq!(result.id, evt.id, "id must be preserved");
    assert_eq!(result.name, "ev2");
    assert_eq!(result.server_id, "s2");
    let stored = cm.get_events();
    assert_eq!(stored.len(), 1);
    assert_eq!(stored[0].name, "ev2");
    assert_eq!(stored[0].id, evt.id);
}

#[test]
fn remove_event_roundtrip() {
    let mut cm = config();
    let em = EventManager::new();
    let evt = em.add_event(&mut cm, mk_event("s1", "ev1"));
    assert!(em.remove_event(&mut cm, &evt.id));
    assert!(cm.get_events().is_empty());
    assert!(!em.remove_event(&mut cm, &evt.id), "removing again returns false");
}

#[test]
fn polling_pushes_on_first_tick_then_after_each_interval() {
    let mut cm = config();
    let mut em = EventManager::new();
    let mut e = mk_event("s1", "ev1");
    e.polling_enabled = true;
    e.polling_interval = Some(10);
    e.handler = Some("tick".to_string());
    e.default_message = Some("hello".to_string());
    em.add_event(&mut cm, e);
    let first = em.tick(&cm, 1_000);
    assert_eq!(first.len(), 1, "a ready event is pushed on its first tick");
    assert_eq!(first[0].server_id, "s1");
    assert_eq!(first[0].event_name, "tick");
    assert_eq!(first[0].message.as_deref(), Some("hello"));
    assert!(em.tick(&cm, 1_009).is_empty(), "not again before the interval");
    assert_eq!(em.tick(&cm, 1_010).len(), 1, "again once the interval has passed");
    assert!(em.tick(&cm, 1_015).is_empty());
}

#[test]
fn polling_skips_disabled_and_zero_interval_events() {
    let mut cm = config();
    let mut em = EventManager::new();
    let mut off = mk_event("s1", "off");
    off.polling_enabled = false;
    off.polling_interval = Some(10);
    em.add_event(&mut cm, off);
    let mut zero = mk_event("s1", "zero");
    zero.polling_enabled = true;
    zero.polling_interval = Some(0);
    em.add_event(&mut cm, zero);
    let mut none = mk_event("s1", "none");
    none.polling_enabled = true;
    none.polling_interval = None;
    em.add_event(&mut cm, none);
    let mut disabled = mk_event("s1", "disabled");
    disabled.polling_enabled = true;
    disabled.polling_interval = Some(10);
    disabled.status = EventStatus::Disabled;
    em.add_event(&mut cm, disabled);
    assert!(em.tick(&cm, 1_000).is_empty());
    assert!(em.tick(&cm, 100_000).is_empty());
}

// ======================== logs ========================

fn mk_entry(server_id: Option<&str>, level: LogLevel, msg: &str) -> LogEntry {
    let mut e = LogEntry::default();
    e.server_id = server_id.map(|s| s.to_string());
    e.level = level;
    e.event = "test".to_string();
    e.message = msg.to_string();
    e
}

fn logs() -> LogManager {
    LogManager::new("/tmp/ssm_log_test".to_string())
}

#[test]
fn add_entry_then_log_batch_returns_it() {
    let mut m = logs();
    m.add_entry(mk_entry(Some("s1"), LogLevel::Info, "hello"));
    let batch = m.get_entries_last(10);
    assert_eq!(batch.len(), 1, "log_batch should include the new entry");
    assert_eq!(batch[0].message, "hello");
    assert_eq!(batch[0].server_id.as_deref(), Some("s1"));
    assert!(!batch[0].id.is_empty(), "id should be auto-filled");
    assert_eq!(m.get_entries(&LogFilter::default()).len(), 1);
}

#[test]
fn clear_empties_buffer() {
    let mut m = logs();
    m.add_entry(mk_entry(Some("s1"), LogLevel::Info, "a"));
    m.add_entry(mk_entry(Some("s1"), LogLevel::Warn, "b"));
    assert_eq!(m.get_entries_last(10).len(), 2);
    m.clear_entries();
    assert_eq!(m.get_entries_last(10).len(), 0);
    assert_eq!(m.get_entries(&LogFilter::default()).len(), 0);
}

#[test]
fn filter_by_server_and_level() {
    let mut m = logs();
    m.add_entry(mk_entry(Some("s1"), LogLevel::Info, "info-1"));
    m.add_entry(mk_entry(Some("s1"), LogLevel::Error, "err-1"));
    m.add_entry(mk_entry(Some("s2"), LogLevel::Info, "info-2"));
    let mut f = LogFilter::default();
    f.server_id = Some("s1".to_string());
    assert_eq!(m.get_entries(&f).len(), 2);
    let mut f = LogFilter::default();
    f.level = Some(LogLevel::Warn);
    let warn = m.get_entries(&f);
    assert_eq!(warn.len(), 1);
    assert_eq!(warn[0].message, "err-1");
}

#[test]
fn keyword_filter_ignores_case() {
    let mut m = logs();
    m.add_entry(mk_entry(Some("Alpha"), LogLevel::Info, "Hello World"));
    m.add_entry(mk_entry(None, LogLevel::Info, "other"));
    let mut f = LogFilter::default();
    f.keyword = Some("WORLD".to_string());
    assert_eq!(m.get_entries(&f).len(), 1);
    f.keyword = Some("alp".to_string());
    assert_eq!(m.get_entries(&f).len(), 1);
    f.keyword = Some("zzz".to_string());
    assert_eq!(m.get_entries(&f).len(), 0);
}

#[test]
fn ring_buffer_keeps_the_newest() {
    let mut m = logs();
    for i in 0..(LOG_MEMORY_LIMIT + 5) {
        m.add_entry(mk_entry(None, LogLevel::Debug, &format!("m{}", i)));
    }
    let all = m.get_entries_last(usize::MAX);
    assert_eq!(all.len(), LOG_MEMORY_LIMIT);
    assert_eq!(all[0].message, "m5");
    assert_eq!(all[all.len() - 1].message, format!("m{}", LOG_MEMORY_LIMIT + 4));
    assert_eq!(m.get_entries_last(3).len(), 3);
}

#[test]
fn cleanup_old_removes_only_expired_files() {
    let m = logs();
    // today 2024-03-31: 30 days ago is 2024-03-01, 2 days ago is 2024-03-29
    let names = vec![
        "2024-03-01.log".to_string(),
        "2024-03-29.log".to_string(),
        "notadate.log".to_string(),
        "2024-03-01.txt".to_string(),
    ];
    let removed = m.cleanup_old(7, (2024, 3, 31), &names);
    assert_eq!(removed, vec!["2024-03-01.log".to_string()], "只有 30 天前的文件应被删除");
}

#[test]
fn file_names_split_like_paths() {
    assert_eq!(split_file_name("2024-03-01.log"), ("2024-03-01".to_string(), Some("log".to_string())));
    assert_eq!(split_file_name(".log"), (".log".to_string(), None));
    assert_eq!(split_file_name("a.tar.gz"), ("a.tar".to_string(), Some("gz".to_string())));
    assert_eq!(split_file_name("plain"), ("plain".to_string(), None));
}

#[test]
fn level_numbers() {
    assert_eq!(level_num("DEBUG"), 0);
    assert_eq!(level_num("INFO"), 1);
    assert_eq!(level_num("WARN"), 2);
    assert_eq!(level_num("ERROR"), 3);
    assert_eq!(level_num("info"), 0);
}

// ======================== services ========================

#[test]
fn register_server_creates_stopped_runtime() {
    let mut sm = ServiceManager::new();
    sm.register_server(mk_server("s1", "S1"));
    let runtimes = sm.get_runtimes();
    assert_eq!(runtimes.len(), 1);
    let rt = sm.get_runtime("s1").expect("runtime exists");
    assert_eq!(rt.status, ServerStatus::Stopped);
}

#[test]
fn remove_server_succeeds_when_not_running() {
    let mut sm = ServiceManager::new();
    sm.register_server(mk_server("s1", "S1"));
    assert!(sm.remove_server("s1"));
    assert!(sm.get_runtime("s1").is_none());
    assert!(sm.remove_server("s1"), "removing an absent server is a no-op success");
}

#[test]
fn remove_server_refuses_when_running() {
    let mut sm = ServiceManager::new();
    sm.register_server(mk_server("live", "Live"));
    sm.mark_started("live");
    assert!(!sm.remove_server("live"), "remove_server must refuse while the transport is present");
    assert!(sm.take_transport("live"));
    assert!(sm.remove_server("live"));
}

#[test]
fn broadcast_without_server_errors() {
    let sm = ServiceManager::new();
    assert!(matches!(sm.require_transport("nope"), Err(BackendError::TransportNotFound)));
    assert!(matches!(sm.send_plan("nope", "broadcast", None), Err(BackendError::TransportNotFound)));
}

#[test]
fn send_plan_resolves_targets_of_a_live_service() {
    let mut sm = ServiceManager::new();
    sm.register_server(mk_server("live", "Live"));
    sm.mark_started("live");
    assert!(sm.require_transport("live").is_ok());
    assert_eq!(sm.send_plan("live", "broadcast", Some("x")).unwrap(), None);
    assert_eq!(sm.send_plan("live", "client", None).unwrap(), None);
    assert_eq!(sm.send_plan("live", "client", Some("live___abc")).unwrap(), Some("abc".to_string()));
    assert_eq!(sm.send_plan("live", "client", Some("abc")).unwrap(), Some("abc".to_string()));
}

#[test]
fn starting_a_running_service_changes_nothing() {
    let mut cm = config();
    cm.save_servers(vec![mk_server("ws", "WS")]);
    let mut sm = ServiceManager::new();
    sm.reload(&cm);
    sm.mark_started("ws");
    let before = sm.get_runtime("ws").unwrap();
    assert_eq!(before.status, ServerStatus::Running);
    assert!(before.error.is_none());
    assert!(before.started_at.is_some());
    for _ in 0..2 {
        assert!(matches!(sm.start_plan(&cm, "ws"), Ok(StartPlan::AlreadyRunning)));
    }
    let after = sm.get_runtime("ws").unwrap();
    assert_eq!(after.status, before.status);
    assert_eq!(after.started_at, before.started_at);
    assert_eq!(after.error, before.error);
    assert_eq!(sm.get_runtimes().len(), 1);
}

#[test]
fn start_plan_checks() {
    let mut cm = config();
    let mut sio = mk_server("sio", "SIO");
    sio.protocol = ProtocolType::SocketIo;
    sio.mock_enabled = true;
    let mut ws = mk_server("ws", "WS");
    ws.mock_enabled = true;
    cm.save_servers(vec![sio, ws]);
    let mut sm = ServiceManager::new();
    sm.reload(&cm);
    assert!(matches!(sm.start_plan(&cm, "missing"), Err(BackendError::ServerNotFound)));
    assert!(matches!(sm.start_plan(&cm, "sio"), Err(BackendError::Config(_))));
    match sm.start_plan(&cm, "ws") {
        Ok(StartPlan::Launch { kind, cfg, .. }) => {
            assert_eq!(kind, AdapterKind::Unified);
            assert_eq!(cfg.id, "ws");
        },
        _ => panic!("expected a launch"),
    }
    sm.mark_started("ws");
    assert!(matches!(sm.start_plan(&cm, "ws"), Ok(StartPlan::AlreadyRunning)));
    let rt = sm.get_runtime("ws").unwrap();
    assert_eq!(rt.status, ServerStatus::Running);
    assert!(rt.started_at.is_some());
    sm.take_transport("ws");
    sm.mark_stopped("ws");
    let rt = sm.get_runtime("ws").unwrap();
    assert_eq!(rt.status, ServerStatus::Stopped);
    assert!(rt.stopped_at.is_some());
}

#[test]
fn connection_hooks_count_and_log() {
    let mut sm = ServiceManager::new();
    let mut clients = ClientManager::new();
    let mut lm = logs();
    sm.register_server(mk_server("s1", "S1"));
    let line = sm.on_connect("s1", &mut clients, &mut lm, make_client("s1", "c1"));
    assert_eq!(line.event, "client_connect");
    assert_eq!(line.message, "客户端已连接: c1");
    let rt = sm.get_runtime("s1").unwrap();
    assert_eq!(rt.client_count, 1);
    assert_eq!(rt.total_connections, 1);
    let line = sm.on_message("s1", &mut lm, "c1".to_string(), "ping".to_string(), "{\"a\":1}".to_string());
    assert_eq!(line.message, "收到消息 [c1]: ping");
    assert_eq!(sm.get_runtime("s1").unwrap().received_messages, 1);
    sm.on_disconnect("s1", &mut clients, &mut lm, "c1".to_string());
    sm.on_disconnect("s1", &mut clients, &mut lm, "c1".to_string());
    let rt = sm.get_runtime("s1").unwrap();
    assert_eq!(rt.client_count, 0);
    assert_eq!(rt.total_connections, 1);
    assert_eq!(clients.count("s1"), 0);
    assert_eq!(lm.get_entries_last(10).len(), 4);
    let line = sm.record_sent(&mut lm, "s1", "evt", "\"hi\"", "{}".to_string());
    assert_eq!(line.message, "[消息中心] 发送 → 事件: evt, 内容: \"hi\"");
    assert_eq!(sm.get_runtime("s1").unwrap().sent_messages, 1);
    sm.increment_sent_messages("s1");
    assert_eq!(sm.get_runtime("s1").unwrap().sent_messages, 2);
}

#[test]
fn message_targets() {
    assert_eq!(resolve_target("broadcast", Some("s1___c1")), None);
    assert_eq!(resolve_target("client", None), None);
    assert_eq!(resolve_target("client", Some("s1___c1")), Some("c1".to_string()));
    assert_eq!(resolve_target("client", Some("c1")), Some("c1".to_string()));
    assert_eq!(resolve_target("client", Some("a___b___c")), Some("b___c".to_string()));
}

#[test]
fn scene_helpers() {
    let mut scene = SceneConfig::default();
    scene.server_ids = vec!["a".to_string(), "b".to_string(), "c".to_string()];
    assert_eq!(stop_order(&scene), vec!["c".to_string(), "b".to_string(), "a".to_string()]);
    let ok = scene_result(&"a".to_string(), &Ok(()));
    assert!(ok.success && ok.error.is_none());
    let failed = scene_result(&"b".to_string(), &Err(BackendError::ServerNotFound));
    assert!(!failed.success);
    assert_eq!(failed.error.as_deref(), Some("server not found"));
}
