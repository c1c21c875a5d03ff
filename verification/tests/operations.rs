use socket_server_manager::net::parse_i64;
use socket_server_manager::admin::{AdminSession, TickAction};
use socket_server_manager::bench::{messages_target, pad_len, tally, BenchConfig, ClientTally};
use socket_server_manager::config::ConfigManager;
use socket_server_manager::error::BackendError;
use socket_server_manager::frontend::{asset_path, cache_control, content_type, lookup_order};
use socket_server_manager::mock_manager::{MockManager, MockStart};
use socket_server_manager::net::{api_port, decimal_string, lsof_pids, netstat_pids, parse_uint, trim_ws};
use socket_server_manager::ops::{
    add_scene, add_server, err, error_reply, events_of_server, failed_count, http_status, ok, ok_msg_only,
    parse_event_status, parse_level, remove_scene, remove_server, send_data, send_server_id, split_client_id,
    update_scene, update_server,
};
use socket_server_manager::services::ServiceManager;
use socket_server_manager::types::{
    EventConfig, EventStatus, HttpMethod, LogLevel, MockRule, MockServiceConfig, SceneConfig, SceneServerResult,
    ServerConfig,
};

fn config() -> ConfigManager {
    ConfigManager::new("/tmp/ssm_ops_test".to_string())
}

// ======================== mock services ========================

#[test]
fn add_then_start_stop_service() {
    let mut mgr = MockManager::new();
    let mut cm = config();
    let mut cfg = MockServiceConfig::default();
    cfg.id = "m1".to_string();
    cfg.name = "t".to_string();
    cfg.enabled = true;
    let saved = mgr.add_service(cfg, &mut cm, 3080).unwrap();
    assert_eq!(saved.id, "m1");
    assert!(!saved.created_at.is_empty());
    assert!(!saved.updated_at.is_empty());
    assert!(cm.get_mock_service_by_id("m1").is_some());
    assert_eq!(mgr.start(&saved), Ok(MockStart::MainPort));
    assert!(mgr.running_ids().contains(&"m1".to_string()));
    assert_eq!(mgr.port_of("m1"), Some(0));
    mgr.stop("m1");
    assert!(!mgr.running_ids().contains(&"m1".to_string()));
}

#[test]
fn add_rejects_bad_basepath_and_port() {
    let mut mgr = MockManager::new();
    let mut cm = config();
    let mut bad_base = MockServiceConfig::default();
    bad_base.id = "m2".to_string();
    bad_base.base_path = "/admin/api/x".to_string();
    bad_base.enabled = true;
    let e = mgr.add_service(bad_base, &mut cm, 3080).unwrap_err();
    assert_eq!(e.code, "MOCK_BAD_BASEPATH");
    assert_eq!(e.status, 400);

    let mut bad_port = MockServiceConfig::default();
    bad_port.id = "m3".to_string();
    bad_port.custom_port = Some(3080);
    bad_port.enabled = true;
    let e = mgr.add_service(bad_port, &mut cm, 3080).unwrap_err();
    assert_eq!(e.code, "MOCK_BAD_PORT");
    assert_eq!(e.status, 400);
    assert!(cm.get_mock_services().is_empty());
}

#[test]
fn start_missing_service_errors() {
    let mut mgr = MockManager::new();
    let cm = config();
    let e = mgr.start_service("nope", &cm).unwrap_err();
    assert_eq!(e.code, "MOCK_NOT_FOUND");
    assert_eq!(e.status, 404);
}

#[test]
fn start_disabled_and_custom_port_services() {
    let mut mgr = MockManager::new();
    let mut cm = config();
    let mut off = MockServiceConfig::default();
    off.id = "off".to_string();
    mgr.add_service(off, &mut cm, 3080).unwrap();
    let e = mgr.start_service("off", &cm).unwrap_err();
    assert_eq!(e.code, "MOCK_START_FAIL");
    assert_eq!(e.message, "服务未启用");
    let mut custom = MockServiceConfig::default();
    custom.id = "c".to_string();
    custom.enabled = true;
    custom.custom_port = Some(31000);
    mgr.add_service(custom, &mut cm, 3080).unwrap();
    assert_eq!(mgr.start_service("c", &cm).unwrap(), MockStart::Bind(31000));
    assert_eq!(mgr.port_of("c"), None);
    mgr.record_started("c".to_string(), 31000);
    assert_eq!(mgr.port_of("c"), Some(31000));
    assert_eq!(mgr.remove_service("c", &mut cm), Some(31000));
    assert_eq!(cm.get_mock_services().len(), 1);
}

#[test]
fn update_service_replaces_or_appends() {
    let mut mgr = MockManager::new();
    let mut cm = config();
    let mut a = MockServiceConfig::default();
    a.id = "a".to_string();
    a.name = "one".to_string();
    mgr.add_service(a, &mut cm, 3080).unwrap();
    let mut a2 = MockServiceConfig::default();
    a2.id = "a".to_string();
    a2.name = "two".to_string();
    mgr.update_service(a2, &mut cm, 3080).unwrap();
    assert_eq!(cm.get_mock_services().len(), 1);
    assert_eq!(cm.get_mock_service_by_id("a").unwrap().name, "two");
    let mut b = MockServiceConfig::default();
    b.id = "b".to_string();
    mgr.update_service(b, &mut cm, 3080).unwrap();
    assert_eq!(cm.get_mock_services().len(), 2);
}

#[test]
fn update_service_restarts_only_enabled_services() {
    let mut mgr = MockManager::new();
    let mut cm = config();
    let mut a = MockServiceConfig::default();
    a.id = "a".to_string();
    a.enabled = true;
    mgr.add_service(a.clone(), &mut cm, 3080).unwrap();
    assert_eq!(mgr.port_of("a"), Some(0), "added enabled on the main port: running");
    let mut off = a.clone();
    off.enabled = false;
    mgr.update_service(off, &mut cm, 3080).unwrap();
    assert_eq!(mgr.port_of("a"), None, "updated to disabled: stopped");
    mgr.update_service(a.clone(), &mut cm, 3080).unwrap();
    assert_eq!(mgr.port_of("a"), Some(0), "updated to enabled: running again");
    let mut custom = a.clone();
    custom.custom_port = Some(31001);
    mgr.update_service(custom, &mut cm, 3080).unwrap();
    assert_eq!(mgr.port_of("a"), None, "a custom port waits for its listener");
    let mut bad = a;
    bad.custom_port = Some(3080);
    mgr.record_started("a".to_string(), 31001);
    assert!(mgr.update_service(bad, &mut cm, 3080).is_err());
    assert_eq!(mgr.port_of("a"), Some(31001), "a refused update leaves it running");
}

#[test]
fn main_port_selection_prefers_longest_base() {
    let mut mgr = MockManager::new();
    let mut cm = config();
    for (id, base) in [("short", "/api2"), ("long", "/api2/v1/"), ("admin", "/admin/api"), ("root", "/")] {
        let mut s = MockServiceConfig::default();
        s.id = id.to_string();
        s.base_path = base.to_string();
        s.enabled = true;
        let s = mgr.add_service(s, &mut cm, 3080).map(|s| s).unwrap_or_else(|_| {
            let mut t = MockServiceConfig::default();
            t.id = id.to_string();
            t
        });
        let _ = mgr.start(&s);
    }
    assert_eq!(mgr.select_main_port(&cm, "/api2/v1/users").unwrap().id, "long");
    assert_eq!(mgr.select_main_port(&cm, "/api2/users").unwrap().id, "short");
    assert_eq!(mgr.select_main_port(&cm, "/api2").unwrap().id, "short");
    assert!(mgr.select_main_port(&cm, "/api22").is_none());
    assert!(mgr.select_main_port(&cm, "/other").is_none());
}

// ======================== management operations ========================

fn mk_server(id: &str, name: &str) -> ServerConfig {
    let mut s = ServerConfig::default();
    s.id = id.to_string();
    s.name = name.to_string();
    s
}

#[test]
fn server_add_update_remove() {
    let mut cm = config();
    let mut sm = ServiceManager::new();
    let added = add_server(&mut cm, &mut sm, mk_server("", "A"));
    assert_eq!(added.id.len(), 36);
    assert!(!added.created_at.is_empty());
    assert!(sm.get_runtime(&added.id).is_some());
    let prev = update_server(&mut cm, &mut sm, mk_server(&added.id, "A2"));
    assert_eq!(prev.unwrap().name, "A");
    assert_eq!(cm.get_server_by_id(&added.id).unwrap().name, "A2");
    assert!(update_server(&mut cm, &mut sm, mk_server("new", "N")).is_none());
    assert_eq!(cm.get_servers().len(), 2);
    sm.mark_started("new");
    let e = remove_server(&mut cm, &mut sm, "new").unwrap_err();
    assert_eq!(e.code, "SERVER_RUNNING");
    assert_eq!(e.status, 400);
    assert!(remove_server(&mut cm, &mut sm, &added.id).is_ok());
    assert_eq!(cm.get_servers().len(), 1);
}

#[test]
fn scene_operations() {
    let mut cm = config();
    let mut s = SceneConfig::default();
    s.name = "demo".to_string();
    let added = add_scene(&mut cm, s);
    assert_eq!(added.created_at, added.updated_at);
    let mut changed = SceneConfig::default();
    changed.id = added.id.clone();
    changed.name = "demo2".to_string();
    assert!(update_scene(&mut cm, changed).is_ok());
    assert_eq!(cm.get_scene_by_id(&added.id).unwrap().name, "demo2");
    let mut missing = SceneConfig::default();
    missing.id = "nope".to_string();
    let e = update_scene(&mut cm, missing).unwrap_err();
    assert_eq!(e.code, "SCENE_NOT_FOUND");
    assert_eq!(e.status, 404);
    remove_scene(&mut cm, &added.id);
    assert!(cm.get_scenes().is_empty());
    let rows = vec![
        SceneServerResult { server_id: "a".to_string(), success: true, error: None },
        SceneServerResult { server_id: "b".to_string(), success: false, error: Some("x".to_string()) },
    ];
    assert_eq!(failed_count(&rows), 1);
}

#[test]
fn request_helpers() {
    assert_eq!(parse_event_status("enabled"), EventStatus::Enabled);
    assert_eq!(parse_event_status("Enabled"), EventStatus::Disabled);
    assert_eq!(parse_level("WARN"), Some(LogLevel::Warn));
    assert_eq!(parse_level("warn"), None);
    assert_eq!(split_client_id("s1___c1"), ("s1".to_string(), "c1".to_string()));
    assert_eq!(split_client_id("c1"), (String::new(), "c1".to_string()));
    assert_eq!(send_server_id(Some("s".to_string()), None).unwrap(), "s");
    assert_eq!(send_server_id(None, Some("s2___c".to_string())).unwrap(), "s2");
    let e = send_server_id(None, Some("c".to_string())).unwrap_err();
    assert_eq!(e.code, "SERVER_NOT_FOUND");
    let mut e1 = EventConfig::default();
    e1.server_id = "s1".to_string();
    let mut e2 = EventConfig::default();
    e2.server_id = "s2".to_string();
    assert_eq!(events_of_server(vec![e1.clone(), e2.clone()], Some("s2")).len(), 1);
    assert_eq!(events_of_server(vec![e1, e2], None).len(), 2);
}

#[test]
fn reply_envelopes() {
    assert_eq!(http_status(404), 404);
    assert_eq!(http_status(42), 500);
    assert_eq!(http_status(1000), 500);
    let (status, body) = ok(5u8);
    assert_eq!(status, 200);
    assert!(body.success);
    assert_eq!(body.data, Some(5));
    let (status, body) = ok_msg_only::<u8>("done");
    assert_eq!(status, 200);
    assert_eq!(body.message.as_deref(), Some("done"));
    let (status, body) = err::<u8>("E", "bad".to_string(), 7);
    assert_eq!(status, 500);
    assert!(!body.success);
    assert_eq!(body.error_code.as_deref(), Some("E"));
    assert_eq!(body.error.as_deref(), Some("bad"));
    assert_eq!(BackendError::Config("x".to_string()).message(), "config error: x");
    assert_eq!(BackendError::not_implemented("tcp").status_code(), 501);
    assert_eq!(BackendError::ServerNotFound.error_code(), "SERVER_NOT_FOUND");
}

// ======================== frontend ========================

#[test]
fn frontend_file_policies() {
    assert_eq!(content_type("assets/index-abc.js"), "application/javascript; charset=utf-8");
    assert_eq!(content_type("index.html"), "text/html; charset=utf-8");
    assert_eq!(content_type("font.woff2"), "font/woff2");
    assert_eq!(content_type("README"), "application/octet-stream");
    assert_eq!(content_type("a.b.MAP"), "application/octet-stream");
    assert_eq!(cache_control("assets/x.css"), "public, max-age=31536000, immutable");
    assert_eq!(cache_control("index.html"), "no-cache");
    assert_eq!(asset_path("//assets/x.js"), "assets/x.js");
    assert_eq!(lookup_order("/"), vec!["index.html".to_string()]);
    assert_eq!(lookup_order("/mock"), vec!["mock".to_string(), "index.html".to_string()]);
}

// ======================== network helpers ========================

#[test]
fn decimal_numbers() {
    assert_eq!(parse_uint("8080", 65_535), Some(8080));
    assert_eq!(parse_uint("+7", 65_535), Some(7));
    assert_eq!(parse_uint("65536", 65_535), None);
    assert_eq!(parse_uint("", 65_535), None);
    assert_eq!(parse_uint("+", 65_535), None);
    assert_eq!(parse_uint("-1", 65_535), None);
    assert_eq!(parse_uint("12a", 65_535), None);
    assert_eq!(decimal_string(0), "0");
    assert_eq!(decimal_string(31000), "31000");
    assert_eq!(api_port(None), 3080);
    assert_eq!(api_port(Some("4000")), 4000);
    assert_eq!(api_port(Some("x")), 3080);
    assert_eq!(trim_ws("  a b \t\r"), "a b");
}

#[test]
fn port_holder_parsing() {
    assert_eq!(lsof_pids("123\n456\n\n"), vec!["123".to_string(), "456".to_string()]);
    assert!(lsof_pids("   \n").is_empty());
    let out = "  TCP    0.0.0.0:3080     0.0.0.0:0    LISTENING    4321\r\n  TCP    [::]:3080    [::]:0    LISTENING    4321\r\n  TCP    0.0.0.0:30800    0.0.0.0:0    LISTENING    99\r\n  TCP    0.0.0.0:3080    1.2.3.4:5    ESTABLISHED    77\r\n  TCP    0.0.0.0:3080    0.0.0.0:0    LISTENING    abc\r\n";
    // `:3080` also occurs in `:30800`, which the text test accepts
    assert_eq!(netstat_pids(out, 3080), vec!["4321".to_string(), "99".to_string()]);
}

// ======================== load test and admin channel ========================

#[test]
fn bench_bookkeeping() {
    let cfg = BenchConfig::default();
    assert_eq!(cfg.clients, 50);
    assert_eq!(cfg.messages_per_client, 200);
    assert_eq!(cfg.payload_bytes, 64);
    assert!(cfg.echo);
    assert_eq!(messages_target(&cfg), 10_000);
    assert_eq!(pad_len(10_000), 4096);
    assert_eq!(pad_len(32), 32);
    let t = tally(&vec![
        ClientTally { connected: true, sent: 10, errors: 0 },
        ClientTally { connected: false, sent: 0, errors: 1 },
        ClientTally { connected: true, sent: 4, errors: 2 },
    ]);
    assert_eq!(t.connects, 2);
    assert_eq!(t.connect_errors, 1);
    assert_eq!(t.messages_sent, 14);
    assert_eq!(t.errors, 4);
}

#[test]
fn admin_session_heartbeat() {
    let mut s = AdminSession::new(1_000);
    assert_eq!(s.on_tick(31_000), TickAction::SendHeartbeat);
    assert_eq!(s.on_tick(31_001), TickAction::Close);
    s.on_frame("heartbeat_ack", 31_001);
    assert_eq!(s.on_tick(40_000), TickAction::SendHeartbeat);
    s.on_frame("other", 90_000);
    assert_eq!(s.last_ack, 31_001);
}

#[test]
fn send_payload_prefers_data_then_content() {
    assert_eq!(send_data(Some("{\"x\":1}".to_string()), Some("ignored"), Some("json")), "{\"x\":1}");
    assert_eq!(send_data(None, Some("{\"msg\": \"hi\"}"), Some("json")), "{\"msg\":\"hi\"}");
    assert_eq!(send_data(None, Some("not json"), Some("json")), "\"not json\"");
    assert_eq!(send_data(None, Some("{\"a\":1}"), Some("text")), "\"{\\\"a\\\":1}\"");
    assert_eq!(send_data(None, Some("hi"), None), "\"hi\"");
    assert_eq!(send_data(None, None, Some("json")), "null");
}

#[test]
fn parse_i64_follows_std() {
    for s in ["42", "+7", "-3", "0", "-0", "", "-", "+", "abc", "1a", " 1", "-+1", "+-1",
              "9223372036854775807", "9223372036854775808", "-9223372036854775808", "-9223372036854775809"] {
        assert_eq!(parse_i64(s), s.parse::<i64>().ok(), "input {:?}", s);
    }
}

#[test]
fn main_port_dispatch_answers_relative_to_the_base() {
    let mut mgr = MockManager::new();
    let mut cm = config();
    let mut s = MockServiceConfig::default();
    s.id = "svc".to_string();
    s.base_path = "/api2".to_string();
    s.enabled = true;
    s.default_status_code = 404;
    let mut rule = MockRule::default();
    rule.id = "r".to_string();
    rule.method = HttpMethod::Get;
    rule.path_pattern = "/users".to_string();
    rule.response_status_code = 201;
    rule.response_body = "{\"ok\":true}".to_string();
    rule.enabled = true;
    s.rules = vec![rule];
    let saved = mgr.add_service(s, &mut cm, 3080).unwrap();
    assert!(mgr.dispatch_main_port(&cm, "GET", "/api2/users", None, &[], b"").is_some(), "an enabled service starts when added");
    mgr.stop("svc");
    assert!(mgr.dispatch_main_port(&cm, "GET", "/api2/users", None, &[], b"").is_none());
    mgr.start(&saved).unwrap();
    let hit = mgr.dispatch_main_port(&cm, "GET", "/api2/users", None, &[], b"").unwrap();
    assert_eq!(hit.status, 201);
    let miss = mgr.dispatch_main_port(&cm, "GET", "/api2/other", None, &[], b"").unwrap();
    assert_eq!(miss.status, 404);
    assert!(mgr.dispatch_main_port(&cm, "GET", "/elsewhere", None, &[], b"").is_none());
    let stopped = mgr.stop_all();
    assert_eq!(stopped, vec![("svc".to_string(), 0u16)]);
    assert!(mgr.dispatch_main_port(&cm, "GET", "/api2/users", None, &[], b"").is_none());
}

#[test]
fn restore_lists_the_enabled_services_in_order() {
    let mut mgr = MockManager::new();
    let mut cm = config();
    for (id, on) in [("a", true), ("b", false), ("c", true)] {
        let mut s = MockServiceConfig::default();
        s.id = id.to_string();
        s.enabled = on;
        mgr.add_service(s, &mut cm, 3080).unwrap();
    }
    let ids: Vec<String> = mgr.restore(&cm).into_iter().map(|s| s.id).collect();
    assert_eq!(ids, vec!["a".to_string(), "c".to_string()]);
}

#[test]
fn error_reply_carries_code_message_and_status() {
    let e = socket_server_manager::ops::ApiError { code: "SCENE_NOT_FOUND", message: "场景不存在".to_string(), status: 404 };
    let (status, body): (u16, socket_server_manager::types::ApiResponse<String>) = error_reply(e);
    assert_eq!(status, 404);
    assert!(!body.success);
    assert_eq!(body.error_code.as_deref(), Some("SCENE_NOT_FOUND"));
    assert_eq!(body.error.as_deref(), Some("场景不存在"));
}
