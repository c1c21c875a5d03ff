use socket_server_manager::matcher::{body_match, cond_match, path_match};
use socket_server_manager::mock::{default_response, dispatch, DelayMs, service_dispatch, strip_base, unified_dispatch, MockEndpoint, MockRequest};
use socket_server_manager::types::{HttpMethod, MockMatchCondition, MockRule, MockServiceConfig, ServerConfig};

#[test]
fn path_exact_match() {
    assert!(path_match("/users", "/users").is_some());
    assert!(path_match("/users", "/users/").is_some());
    assert!(path_match("/users/", "/users").is_some());
    assert!(path_match("/users", "/users/123").is_none());
    assert!(path_match("/", "/").is_some());
}

#[test]
fn path_wildcard_match() {
    let hit = path_match("/users/*", "/users/123/posts/1").unwrap();
    assert_eq!(hit[0].0, "*");
    assert_eq!(hit[0].1, "123/posts/1");
}

#[test]
fn path_param_match() {
    let hit = path_match("/users/:id/posts/:pid", "/users/42/posts/7").unwrap();
    assert_eq!(hit[0], ("id".to_string(), "42".to_string()));
    assert_eq!(hit[1], ("pid".to_string(), "7".to_string()));
}

#[test]
fn cond_exact_contains_regex() {
    let mut h = MockMatchCondition::default();
    h.key = "X-Auth".into();
    h.value = "abc".into();
    h.match_kind = "exact".into();
    h.enabled = true;
    assert!(cond_match(&h, Some("abc")));
    assert!(!cond_match(&h, Some("abcd")));

    h.match_kind = "contains".into();
    assert!(cond_match(&h, Some("xxabcxx")));

    h.match_kind = "regex".into();
    h.value = r"^a.c$".into();
    assert!(cond_match(&h, Some("abc")));
    assert!(!cond_match(&h, Some("ac")));
}

#[test]
fn body_substring_match() {
    assert!(body_match(Some("hello"), b"say hello world"));
    assert!(!body_match(Some("xxx"), b"hi"));
    assert!(body_match(None, b"any"));
    assert!(body_match(Some(""), b"any"));
}

#[test]
fn cond_exists_and_disabled() {
    let mut h = MockMatchCondition::default();
    h.key = "k".into();
    h.value = "v".into();
    h.match_kind = "exists".into();
    h.enabled = true;
    assert!(cond_match(&h, Some("anything")));
    // a missing key, or an empty value, fails an `exists` condition
    assert!(!cond_match(&h, None));
    assert!(!cond_match(&h, Some("")));
    h.match_kind = "exact".into();
    assert!(!cond_match(&h, None));
    h.enabled = false;
    assert!(cond_match(&h, Some("other")));
}

#[test]
fn cond_bad_regex_never_matches() {
    let mut h = MockMatchCondition::default();
    h.key = "k".into();
    h.value = "(".into();
    h.match_kind = "regex".into();
    h.enabled = true;
    assert!(!cond_match(&h, Some("(")));
}

fn rule_get_users() -> MockRule {
    let mut r = MockRule::default();
    r.id = "r1".to_string();
    r.method = HttpMethod::Get;
    r.path_pattern = "/users".to_string();
    r.response_status_code = 200;
    r.response_body = "{\"ok\":true}".to_string();
    r.enabled = true;
    r
}

fn endpoint_with(rule: MockRule) -> MockEndpoint {
    MockEndpoint {
        rules: vec![rule],
        default_status_code: 404,
        default_response_body: "{\"error\":\"not found\"}".to_string(),
        default_delay_ms: 0,
    }
}

fn request<'a>(method: &'a str, path: &'a str, headers: &'a [(String, String)]) -> MockRequest<'a> {
    MockRequest { method, path, headers, query: &[], body: &[] }
}

#[test]
fn engine_matches_rule_and_returns_response() {
    let ep = endpoint_with(rule_get_users());
    let resp = dispatch(&ep, &request("GET", "/users", &[]));
    assert_eq!(resp.status, 200);
    assert!(resp.body.contains("ok"));
}

#[test]
fn engine_disabled_rule_falls_through_to_default() {
    let mut r = rule_get_users();
    r.enabled = false;
    let ep = endpoint_with(r);
    let resp = dispatch(&ep, &request("GET", "/users", &[]));
    assert_eq!(resp.status, 404);
}

#[test]
fn engine_no_rule_match_returns_default() {
    let ep = endpoint_with(rule_get_users());
    let resp = dispatch(&ep, &request("GET", "/posts", &[]));
    assert_eq!(resp.status, 404);
}

#[test]
fn engine_method_mismatch_returns_default() {
    let ep = endpoint_with(rule_get_users());
    let resp = dispatch(&ep, &request("POST", "/users", &[]));
    assert_eq!(resp.status, 404);
}

#[test]
fn engine_header_condition_gates_match() {
    let mut r = rule_get_users();
    let mut c = MockMatchCondition::default();
    c.key = "X-Auth".to_string();
    c.value = "abc".to_string();
    c.match_kind = "exact".to_string();
    c.enabled = true;
    r.match_headers = vec![c];
    let ep = endpoint_with(r);
    let miss = dispatch(&ep, &request("GET", "/users", &[]));
    assert_eq!(miss.status, 404);
    let headers = vec![("x-auth".to_string(), "abc".to_string())];
    let hit = dispatch(&ep, &request("GET", "/users", &headers));
    assert_eq!(hit.status, 200);
}

#[test]
fn engine_path_is_caller_relative_contract() {
    let ep = endpoint_with(rule_get_users());
    let co_port = dispatch(&ep, &request("GET", "/users", &[]));
    let independent = dispatch(&ep, &request("GET", "/users", &[]));
    assert_eq!(co_port.status, independent.status);
    assert_eq!(co_port.status, 200);
}

#[test]
fn engine_first_matching_rule_wins() {
    let mut a = rule_get_users();
    a.response_status_code = 201;
    let mut b = rule_get_users();
    b.response_status_code = 202;
    let ep = MockEndpoint { rules: vec![a, b], default_status_code: 404, default_response_body: "{}".to_string(), default_delay_ms: 0 };
    assert_eq!(dispatch(&ep, &request("GET", "/users", &[])).status, 201);
}

#[test]
fn engine_invalid_status_falls_back_to_ok_and_pretty_body() {
    let mut r = rule_get_users();
    r.response_status_code = 42;
    r.response_delay_ms = 7;
    let ep = endpoint_with(r);
    let resp = dispatch(&ep, &request("GET", "/users", &[]));
    assert_eq!(resp.status, 200);
    assert_eq!(resp.delay_ms, 7);
    assert_eq!(resp.body, "{\n  \"ok\": true\n}");
    assert!(resp.headers.iter().any(|(k, v)| k == "content-type" && v == "application/json; charset=utf-8"));
}

#[test]
fn strip_base_cases() {
    assert_eq!(strip_base("/mock/hello", "/mock"), "/hello");
    assert_eq!(strip_base("/mock", "/mock/"), "/");
    assert_eq!(strip_base("/mockery", "/mock"), "/mockery");
    assert_eq!(strip_base("/x", ""), "/x");
    assert_eq!(strip_base("/x", "///"), "/x");
}

#[test]
fn service_dispatch_strips_base_and_uses_query() {
    let mut cfg = MockServiceConfig::default();
    cfg.base_path = "/mock".to_string();
    cfg.default_status_code = 404;
    cfg.default_response_body = "{\"message\":\"ok\"}".to_string();
    let mut r = rule_get_users();
    r.path_pattern = "/hello".to_string();
    let mut q = MockMatchCondition::default();
    q.key = "name".to_string();
    q.value = "a b".to_string();
    q.match_kind = "exact".to_string();
    q.enabled = true;
    r.match_query = vec![q];
    cfg.rules = vec![r];
    let hit = service_dispatch(&cfg, "GET", "/mock/hello", Some("name=a%20b"), &[], b"");
    assert_eq!(hit.status, 200);
    let miss = service_dispatch(&cfg, "GET", "/mock/hello", Some("name=c"), &[], b"");
    assert_eq!(miss.status, 404);
    assert_eq!(miss.body, "{\n  \"message\": \"ok\"\n}");
}

#[test]
fn shared_port_mock_matches_the_full_path() {
    let mut cfg = ServerConfig::default();
    cfg.id = "test".to_string();
    cfg.mock_enabled = true;
    cfg.mock_rules = vec![rule_get_users()];
    cfg.mock_default_status_code = 404;
    cfg.mock_default_response_body = "{\"error\":\"not found\"}".to_string();
    let hit = unified_dispatch(&cfg, "GET", "/users", None, &[], b"");
    assert_eq!(hit.status, 200);
    assert!(hit.body.contains("ok"));
    let miss = unified_dispatch(&cfg, "GET", "/api/users", Some("a=1"), &[], b"");
    assert_eq!(miss.status, 404);
    assert!(miss.body.contains("not found"));
}

#[test]
fn default_response_pretty_prints_the_default_body() {
    let mut cfg = MockServiceConfig::default();
    cfg.default_status_code = 404;
    cfg.default_response_body = "{\"error\":\"not found\"}".to_string();
    cfg.default_delay_ms = 25;
    let r = default_response(&cfg);
    assert_eq!(r.status, 404);
    assert_eq!(r.body, "{\n  \"error\": \"not found\"\n}");
    assert_eq!(r.delay_ms, 25);
    assert!(r.headers.iter().any(|(k, v)| k.eq_ignore_ascii_case("content-type") && v.contains("application/json")));
    cfg.default_status_code = 42;
    cfg.default_response_body = "plain".to_string();
    let r = default_response(&cfg);
    assert_eq!(r.status, 200);
    assert_eq!(r.body, "plain");
}

#[test]
fn ascii_case_mapping_leaves_other_characters_alone() {
    assert_eq!(socket_server_manager::text::lower_ascii("AbZ-[@`{ÄÉ"), "abz-[@`{ÄÉ");
    assert_eq!(socket_server_manager::text::upper_ascii("azA-[@`{äé"), "AZA-[@`{äé");
    assert!(socket_server_manager::text::eq_ignore_case("Bearer", "bEARER"));
    assert!(!socket_server_manager::text::eq_ignore_case("Ä", "ä"));
}

#[test]
fn delay_converts_to_that_many_milliseconds() {
    assert_eq!(DelayMs(1500).duration(), std::time::Duration::from_millis(1500));
    assert_eq!(DelayMs(0).duration().as_millis(), 0);
    assert_eq!(DelayMs(u32::MAX).duration().as_millis(), u32::MAX as u128);
}
