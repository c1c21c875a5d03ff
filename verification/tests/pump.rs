use socket_server_manager::types::{ClientStatus, ProtocolType, ServerConfig, SystemSettings};
use socket_server_manager::wire::{admission, connection_info, pump_step, Admission, PumpAction, PumpEvent, WireMsg, WsFrame};

fn deliver(a: PumpAction) -> (String, String) {
    match a {
        PumpAction::Deliver { event, data } => (event, data),
        other => panic!("expected a delivery, got {:?}", other),
    }
}

#[test]
fn frame_text_is_delivered_as_is() {
    let parsed = WsFrame { event: "chat".to_string(), data: "{\"msg\":\"hi\"}".to_string() };
    let (event, data) = deliver(pump_step(PumpEvent::Received(WireMsg::Text("ignored".to_string())), Some(parsed)));
    assert_eq!(event, "chat");
    assert_eq!(data, "{\"msg\":\"hi\"}");
}

#[test]
fn plain_text_is_wrapped_as_raw() {
    let (event, data) = deliver(pump_step(PumpEvent::Received(WireMsg::Text("hello \"x\"".to_string())), None));
    assert_eq!(event, "message");
    assert_eq!(data, "{\"raw\":\"hello \\\"x\\\"\"}");
    let (_, data) = deliver(pump_step(PumpEvent::Received(WireMsg::Text("a\tb\\c\u{2}".to_string())), None));
    assert_eq!(data, "{\"raw\":\"a\\tb\\\\c\\u0002\"}");
}

#[test]
fn binary_is_decoded_lossily_and_wrapped() {
    let (event, data) = deliver(pump_step(PumpEvent::Received(WireMsg::Binary(vec![104, 105, 0xff])), None));
    assert_eq!(event, "message");
    assert_eq!(data, "{\"raw\":\"hi\u{fffd}\"}");
}

#[test]
fn close_and_failures_stop_the_pump() {
    assert!(matches!(pump_step(PumpEvent::Received(WireMsg::Close), None), PumpAction::Stop));
    assert!(matches!(pump_step(PumpEvent::ReadFailed, None), PumpAction::Stop));
    assert!(matches!(pump_step(PumpEvent::ReadEnded, None), PumpAction::Stop));
    assert!(matches!(pump_step(PumpEvent::QueueClosed, None), PumpAction::Stop));
    assert!(matches!(pump_step(PumpEvent::WriteFailed, None), PumpAction::Stop));
}

#[test]
fn pings_are_skipped_and_queued_messages_written() {
    assert!(matches!(pump_step(PumpEvent::Received(WireMsg::Noop), None), PumpAction::Skip));
    match pump_step(PumpEvent::Queued(WireMsg::Text("out".to_string())), None) {
        PumpAction::Write(WireMsg::Text(t)) => assert_eq!(t, "out"),
        other => panic!("expected a write, got {:?}", other),
    }
}

#[test]
fn new_connection_is_announced_connected() {
    let mut cfg = ServerConfig::default();
    cfg.id = "srv-1".to_string();
    cfg.protocol = ProtocolType::Websocket;
    let c = connection_info("abc", "10.0.0.1", &cfg);
    assert_eq!(c.id, "abc");
    assert_eq!(c.socket_id, "abc");
    assert_eq!(c.server_id, "srv-1");
    assert_eq!(c.ip_address, "10.0.0.1");
    assert_eq!(c.status, ClientStatus::Connected);
    assert!(!c.connected_at.is_empty());
    assert_eq!(c.connected_at, c.last_activity_at);
    assert!(c.group.is_none() && c.metadata.is_none());
}

#[test]
fn admission_checks_ip_then_capacity() {
    let mut sys = SystemSettings::default();
    sys.max_connections_per_server = 2;
    sys.ip_access.blacklist = vec!["10.0.0.9".to_string()];
    assert_eq!(admission(&sys, "10.0.0.1", 0), Admission::Accept);
    assert_eq!(admission(&sys, "10.0.0.1", 1), Admission::Accept);
    assert_eq!(admission(&sys, "10.0.0.1", 2), Admission::Full);
    assert_eq!(admission(&sys, "10.0.0.9", 0), Admission::DeniedIp);
    assert_eq!(admission(&sys, "10.0.0.9", 5), Admission::DeniedIp);
    sys.ip_access.whitelist = vec!["10.0.0.2".to_string()];
    assert_eq!(admission(&sys, "10.0.0.1", 0), Admission::DeniedIp);
    assert_eq!(admission(&sys, "10.0.0.2", 0), Admission::Accept);
}
