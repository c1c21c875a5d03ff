use socket_server_manager::adapter::{builtin_kinds, AdapterKind};
use socket_server_manager::http_routing::{
    build_routes_map, default_http_routes, effective_routes, group_routes, ingress_data, ingress_event,
    route_key_of, to_axum_path, unified_routes,
};
use socket_server_manager::query::{parse_query, url_decode};
use socket_server_manager::types::{HttpMethod, HttpRouteConfig, HttpRouteType, ProtocolType, ServerConfig};

fn route(id: &str, method: HttpMethod, path: &str, route_type: HttpRouteType, event: Option<&str>) -> HttpRouteConfig {
    HttpRouteConfig {
        id: id.to_string(),
        method,
        path: path.to_string(),
        route_type,
        event: event.map(|e| e.to_string()),
        description: None,
    }
}

#[test]
fn http_to_axum_path_converts_placeholders() {
    assert_eq!(to_axum_path("/{event}"), "/:event");
    assert_eq!(to_axum_path("/order/{event}"), "/order/:event");
    assert_eq!(to_axum_path("/stream"), "/stream");
    assert_eq!(to_axum_path("/a/b/{id}/c"), "/a/b/:id/c");
}

#[test]
fn unified_to_axum_path_converts_placeholders() {
    assert_eq!(to_axum_path("/{event}"), "/:event");
    assert_eq!(to_axum_path("/order/{event}"), "/order/:event");
    assert_eq!(to_axum_path("/stream"), "/stream");
}

#[test]
fn default_routes_when_empty() {
    let defaults = default_http_routes();
    assert_eq!(defaults.len(), 2);
    assert_eq!(defaults[0].method, HttpMethod::Post);
    assert_eq!(defaults[0].path, "/{event}");
    assert_eq!(defaults[0].route_type, HttpRouteType::Inbound);
    assert_eq!(defaults[1].method, HttpMethod::Get);
    assert_eq!(defaults[1].path, "/stream");
    assert_eq!(defaults[1].route_type, HttpRouteType::Stream);
}

#[test]
fn default_http_routes_correct() {
    let defaults = default_http_routes();
    assert_eq!(defaults.len(), 2);
    assert_eq!(defaults[0].method, HttpMethod::Post);
    assert_eq!(defaults[0].path, "/{event}");
    assert_eq!(defaults[1].method, HttpMethod::Get);
    assert_eq!(defaults[1].path, "/stream");
}

#[test]
fn custom_routes_group_correctly() {
    let mut cfg = ServerConfig::default();
    cfg.id = "s1".to_string();
    cfg.protocol = ProtocolType::Http;
    cfg.http_routes = vec![
        route("r1", HttpMethod::Post, "/order/{event}", HttpRouteType::Inbound, None),
        route("r2", HttpMethod::Put, "/order/{event}", HttpRouteType::Inbound, Some("orderUpdated")),
        route("r3", HttpMethod::Get, "/events", HttpRouteType::Stream, None),
    ];
    let eff = effective_routes(&cfg);
    assert!(eff.iter().any(|r| r.method == HttpMethod::Put && r.event == Some("orderUpdated".to_string())));
    let table = build_routes_map(&eff);
    assert_eq!(table.len(), 3);
    assert!(table.iter().any(|(k, r)| k == "PUT /order/:event" && r.event == Some("orderUpdated".to_string())));
    let inbound = group_routes(&eff, false);
    assert_eq!(inbound.len(), 1);
    assert_eq!(inbound[0].0, "/order/:event");
    assert_eq!(inbound[0].1, vec![HttpMethod::Post, HttpMethod::Put]);
    let stream = group_routes(&eff, true);
    assert_eq!(stream.len(), 1);
    assert_eq!(stream[0].0, "/events");
}

#[test]
fn route_table_later_route_replaces_earlier() {
    let routes = vec![
        route("a", HttpMethod::Post, "/x/{event}", HttpRouteType::Inbound, Some("first")),
        route("b", HttpMethod::Post, "/x/{event}", HttpRouteType::Inbound, Some("second")),
    ];
    let table = build_routes_map(&routes);
    assert_eq!(table.len(), 1);
    assert_eq!(table[0].1.event, Some("second".to_string()));
    assert_eq!(route_key_of(&routes[0]), "POST /x/:event");
}

#[test]
fn ingress_event_names() {
    let routes = vec![
        route("r2", HttpMethod::Put, "/order/{event}", HttpRouteType::Inbound, Some("orderUpdated")),
        route("r1", HttpMethod::Post, "/order/{event}", HttpRouteType::Inbound, None),
    ];
    let table = build_routes_map(&routes);
    assert_eq!(ingress_event(&table, "put", Some("/order/:event"), Some("x"), "/order/x"), "orderUpdated");
    assert_eq!(ingress_event(&table, "POST", Some("/order/:event"), Some("created"), "/order/created"), "created");
    assert_eq!(ingress_event(&table, "POST", None, None, "/a/b/"), "b");
    assert_eq!(ingress_event(&table, "POST", None, None, "/"), "message");
}

#[test]
fn unified_routes_only_for_http() {
    let mut cfg = ServerConfig::default();
    cfg.protocol = ProtocolType::Websocket;
    assert_eq!(unified_routes(&cfg).len(), 0);
    cfg.protocol = ProtocolType::Http;
    assert_eq!(unified_routes(&cfg).len(), 2);
}

#[test]
fn parse_query_basic() {
    let m = parse_query(Some("a=1&b=hello%20world&c"));
    let get = |k: &str| m.iter().find(|(key, _)| key == k).map(|(_, v)| v.clone());
    assert_eq!(get("a").unwrap(), "1");
    assert_eq!(get("b").unwrap(), "hello world");
    assert_eq!(get("c").unwrap(), "");
}

#[test]
fn parse_query_later_key_wins_and_empty_pieces_skipped() {
    let m = parse_query(Some("a=1&&a=2&b+c=d%2"));
    assert_eq!(m.len(), 2);
    let get = |k: &str| m.iter().find(|(key, _)| key == k).map(|(_, v)| v.clone());
    assert_eq!(get("a").unwrap(), "2");
    assert_eq!(get("b c").unwrap(), "d%2");
    assert!(parse_query(None).is_empty());
}

#[test]
fn url_decode_edges() {
    assert_eq!(url_decode("a+b%41"), "a+bA".replace('+', " "));
    assert_eq!(url_decode("%41"), "A");
    assert_eq!(url_decode("%4"), "%4");
    assert_eq!(url_decode("%41x"), "Ax");
    assert_eq!(url_decode("%zz1"), "%zz1");
    assert_eq!(url_decode("%E4%BD%A0%E5%A5%BD"), "你好");
    assert_eq!(url_decode("%FF"), "\u{FFFD}");
}

#[test]
fn kind_from_cfg_selects_unified_when_mock_enabled() {
    let mut cfg = ServerConfig::default();
    cfg.id = "s1".to_string();
    cfg.protocol = ProtocolType::Websocket;
    cfg.mock_enabled = true;
    assert_eq!(AdapterKind::from_cfg(&cfg), AdapterKind::Unified);
    cfg.mock_enabled = false;
    assert_eq!(AdapterKind::from_cfg(&cfg), AdapterKind::Websocket);
}

#[test]
fn builtin_kinds_are_registered() {
    let kinds = builtin_kinds();
    assert_eq!(kinds.len(), 8);
    for k in [
        AdapterKind::Websocket,
        AdapterKind::SocketIo,
        AdapterKind::Http,
        AdapterKind::Unified,
        AdapterKind::Tcp,
        AdapterKind::Udp,
        AdapterKind::Mqtt,
        AdapterKind::Sse,
    ] {
        assert!(kinds.contains(&k), "{} should be listed", k.as_str());
    }
    assert_eq!(AdapterKind::from_protocol(ProtocolType::Sse), AdapterKind::Sse);
    assert_eq!(AdapterKind::SocketIo.as_str(), "socketio");
}

#[test]
fn ingress_data_reads_json_or_text() {
    assert_eq!(ingress_data(b""), "null");
    assert_eq!(ingress_data(b"{\"a\": 1}"), "{\"a\":1}");
    assert_eq!(ingress_data(b"[1, 2]"), "[1,2]");
    assert_eq!(ingress_data(b"hello"), "\"hello\"");
    assert_eq!(ingress_data(&[104, 0xff]), "\"h\u{fffd}\"");
    assert_eq!(
        ingress_data("a\"b\\c\n\t\u{1}\u{1f}\u{7f}é/".as_bytes()),
        "\"a\\\"b\\\\c\\n\\t\\u0001\\u001f\u{7f}é/\""
    );
}
