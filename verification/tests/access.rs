use socket_server_manager::audit::{actor_role, make_audit_entry, parse_bearer};
use socket_server_manager::auth::{
    auth_outcome, auth_switch, bearer_from_header, is_exempt, is_readonly_method, split_whitespace,
    viewer_write_forbidden, AuthManager, AuthOutcome, Role,
};
use socket_server_manager::constants::ADMIN_WS_PATH;
use socket_server_manager::ip_access::allow_ip;
use socket_server_manager::types::SystemSettings;

fn s(v: &[&str]) -> Vec<String> {
    v.iter().map(|x| x.to_string()).collect()
}

#[test]
fn blacklist_beats_whitelist() {
    assert!(!allow_ip(&s(&["10.0.0.1"]), &s(&["10.0.0.1"]), "10.0.0.1"));
}

#[test]
fn blacklisted_ip_rejected() {
    assert!(!allow_ip(&s(&[]), &s(&["192.168.1.5"]), "192.168.1.5"));
}

#[test]
fn whitelist_allows_only_match() {
    assert!(allow_ip(&s(&["10.0.0.1"]), &s(&[]), "10.0.0.1"));
    assert!(!allow_ip(&s(&["10.0.0.1"]), &s(&[]), "10.0.0.2"));
}

#[test]
fn empty_whitelist_allows_any_non_blacklisted() {
    assert!(allow_ip(&s(&[]), &s(&[]), "203.0.113.7"));
}

#[test]
fn allow_ip_respects_whitelist() {
    let mut sys = SystemSettings::default();
    sys.ip_access.whitelist = vec!["10.0.0.1".to_string()];
    let allow = |ip: &str| allow_ip(&sys.ip_access.whitelist, &sys.ip_access.blacklist, ip);
    assert!(!allow("192.168.1.5"), "非白名单 IP 应被拒绝");
    assert!(allow("10.0.0.1"), "白名单 IP 应被允许");
}

#[test]
fn unified_state_ip_filter() {
    let mut sys = SystemSettings::default();
    sys.ip_access.whitelist = vec!["10.0.0.1".to_string()];
    assert!(!allow_ip(&sys.ip_access.whitelist, &sys.ip_access.blacklist, "192.168.1.5"));
    assert!(allow_ip(&sys.ip_access.whitelist, &sys.ip_access.blacklist, "10.0.0.1"));
}

#[test]
fn exempt_paths_and_bearer_parsing() {
    assert!(is_exempt("/api/auth/bootstrap"));
    assert!(is_exempt("/api/health"));
    assert!(is_exempt(ADMIN_WS_PATH));
    assert!(is_exempt("/"));
    assert!(is_exempt("/assets/app.js"));
    assert!(!is_exempt("/api/servers"));
    assert_eq!(bearer_from_header("Bearer abc"), Some("abc".to_string()));
    assert_eq!(bearer_from_header("Basic xyz"), None);
    assert_eq!(bearer_from_header("abc"), None);
    assert_eq!(bearer_from_header(""), None);
}

#[test]
fn bearer_parsing() {
    assert_eq!(parse_bearer("Bearer abc"), Some("abc".to_string()));
    assert_eq!(parse_bearer("Basic xyz"), None);
    assert_eq!(parse_bearer("abc"), None);
    assert_eq!(parse_bearer(""), None);
}

#[test]
fn bearer_scheme_ignores_case_and_spacing() {
    assert_eq!(parse_bearer("  bEaReR \t tok extra"), Some("tok".to_string()));
    assert_eq!(split_whitespace(" a  b\u{3000}c "), vec!["a".to_string(), "b".to_string(), "c".to_string()]);
}

#[test]
fn readonly_method_judgment() {
    assert!(is_readonly_method("GET"));
    assert!(is_readonly_method("HEAD"));
    assert!(is_readonly_method("OPTIONS"));
    assert!(!is_readonly_method("POST"));
    assert!(!is_readonly_method("PUT"));
    assert!(!is_readonly_method("PATCH"));
    assert!(!is_readonly_method("DELETE"));
}

#[test]
fn viewer_write_forbidden_blocks_writes_allows_reads() {
    assert!(viewer_write_forbidden(Role::Viewer, "POST"));
    assert!(viewer_write_forbidden(Role::Viewer, "PUT"));
    assert!(viewer_write_forbidden(Role::Viewer, "DELETE"));
    assert!(!viewer_write_forbidden(Role::Viewer, "GET"));
    assert!(!viewer_write_forbidden(Role::Viewer, "HEAD"));
    assert!(!viewer_write_forbidden(Role::Admin, "POST"));
    assert!(!viewer_write_forbidden(Role::Admin, "DELETE"));
}

#[test]
fn auth_gate_outcomes() {
    assert_eq!(auth_outcome(false, "/api/servers", None, "POST"), AuthOutcome::Pass);
    assert_eq!(auth_outcome(true, "/api/health", None, "GET"), AuthOutcome::Pass);
    assert_eq!(auth_outcome(true, "/api/servers", None, "GET"), AuthOutcome::Unauthorized);
    assert_eq!(auth_outcome(true, "/api/servers", Some(Role::Viewer), "POST"), AuthOutcome::Forbidden);
    assert_eq!(auth_outcome(true, "/api/servers", Some(Role::Viewer), "GET"), AuthOutcome::Pass);
    assert_eq!(auth_outcome(true, "/api/servers", Some(Role::Admin), "DELETE"), AuthOutcome::Pass);
}

#[test]
fn role_names_round_trip() {
    assert_eq!(Role::from_str(Role::Viewer.as_str()), Role::Viewer);
    assert_eq!(Role::from_str(Role::Admin.as_str()), Role::Admin);
    assert_eq!(Role::from_str("root"), Role::Admin);
}

#[test]
fn audit_actor_and_entry() {
    assert_eq!(actor_role(false, None), Some(Role::Admin));
    assert_eq!(actor_role(true, None), None);
    assert_eq!(actor_role(true, Some(Role::Viewer)), Some(Role::Viewer));
    let e = make_audit_entry(None, "server_start", "server", Some("srv-1".to_string()), None, false);
    assert_eq!(e.actor, "local");
    assert_eq!(e.result, "failure");
    assert_eq!(e.id.len(), 36);
    assert!(!e.timestamp.is_empty());
    let e = make_audit_entry(Some(Role::Admin), "x", "y", None, Some("{}".to_string()), true);
    assert_eq!(e.actor, "admin");
    assert_eq!(e.result, "success");
}

#[test]
fn init_generates_and_persists_admin_token() {
    let mgr = AuthManager::from_rows(Vec::new(), false);
    let t = mgr.admin_token().to_string();
    assert!(!t.is_empty());
    // Opening again on the stored rows reads the same token.
    let stored = mgr.rows();
    drop(mgr);
    let mgr2 = AuthManager::from_rows(stored, false);
    assert_eq!(mgr2.admin_token(), t);
}

#[test]
fn verify_accepts_admin_rejects_garbage() {
    let mgr = AuthManager::from_rows(Vec::new(), true);
    let t = mgr.admin_token().to_string();
    assert_eq!(mgr.verify(&t), Some(Role::Admin));
    assert_eq!(mgr.verify("garbage"), None);
    assert_eq!(mgr.verify(""), None);
}

#[test]
fn verify_returns_viewer_role_for_viewer_token() {
    let mgr = AuthManager::from_rows(Vec::new(), true);
    let mut rows = mgr.rows();
    rows.push(("viewer-token".to_string(), "viewer".to_string()));
    let mgr = AuthManager::from_rows(rows, true);
    assert_eq!(mgr.verify("viewer-token"), Some(Role::Viewer));
    assert_eq!(mgr.verify(mgr.admin_token()), Some(Role::Admin));
}

#[test]
fn stored_admin_row_is_reused_not_regenerated() {
    let rows = vec![
        ("v1".to_string(), "viewer".to_string()),
        ("a1".to_string(), "admin".to_string()),
        ("a2".to_string(), "admin".to_string()),
    ];
    let mgr = AuthManager::from_rows(rows, true);
    assert_eq!(mgr.admin_token(), "a1");
    assert_eq!(mgr.rows().len(), 3);
    assert!(mgr.enabled());
}

#[test]
fn auth_switch_reads_one_or_true() {
    assert!(auth_switch(Some("1")));
    assert!(auth_switch(Some("true")));
    assert!(auth_switch(Some("TRUE")));
    assert!(!auth_switch(Some("yes")));
    assert!(!auth_switch(Some("0")));
    assert!(!auth_switch(None));
}
