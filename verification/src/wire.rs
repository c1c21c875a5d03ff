//! WebSocket connections of a managed service: whether a new connection is
//! admitted, and the message pump: what each inbound message, queued
//! outbound message or failure does to the connection. Reading and
//! writing frames, and parsing a text as a frame, are the caller's business.

use vstd::prelude::*;

use crate::clock::now_rfc3339;
use crate::http_routing::json_string_text;
use crate::ip_access::{allow_ip, ip_allowed};
use crate::query::{lossy_text, utf8_lossy};
use crate::text::views;
use crate::types::{ClientInfo, ClientStatus, ServerConfig, SystemSettings};

verus! {

/// A WebSocket message, independent of the library that carries it.
#[derive(Debug)]
pub enum WireMsg {
    Text(String),
    Binary(Vec<u8>),
    /// The peer closes the connection.
    Close,
    /// A message the pump ignores (ping, pong).
    Noop,
}

/// A frame of the socket protocol: an event name and its data as JSON text.
#[derive(Debug)]
pub struct WsFrame {
    pub event: String,
    pub data: String,
}

/// What happened on a connection.
#[derive(Debug)]
pub enum PumpEvent {
    /// A message arrived from the peer.
    Received(WireMsg),
    /// Reading from the peer failed.
    ReadFailed,
    /// The peer's stream ended.
    ReadEnded,
    /// A message was queued for the peer.
    Queued(WireMsg),
    /// The outbound queue was closed.
    QueueClosed,
    /// Writing to the peer failed.
    WriteFailed,
}

/// What the pump does next.
#[derive(Debug)]
pub enum PumpAction {
    /// Hand `event` and `data` (JSON text) to the message hook.
    Deliver { event: String, data: String },
    /// Write the message to the peer.
    Write(WireMsg),
    /// Leave the loop: the connection is over.
    Stop,
    /// Nothing to do.
    Skip,
}

/// Event name given to a message that is not a frame.
pub const RAW_EVENT: &'static str = "message";

/// Field that carries the text of a message that is not a frame.
pub const RAW_FIELD: &'static str = "raw";

// ==================== outside call ====================

/// The compact JSON text of the object with one field `key` whose value is
/// the string `value`: `{"key":"value"}`, both strings escaped.
pub open spec fn object_text(key: Seq<char>, value: Seq<char>) -> Seq<char> {
    seq!['{'] + json_string_text(key) + seq![':'] + json_string_text(value) + seq!['}']
}

/// The JSON object `{ key: value }` with `value` as a JSON string, printed
/// by `serde_json` (`Value::to_string`, the compact form: no spaces).
#[verifier::external_body]
fn one_field_object(key: &str, value: &str) -> (r: String)
    ensures
        r@ == object_text(key@, value@),
{
    let mut m = serde_json::Map::new();
    m.insert(key.to_string(), serde_json::Value::String(value.to_string()));
    serde_json::Value::Object(m).to_string()
}

// ==================== admission ====================

/// Whether a new connection is taken.
#[derive(Debug, Clone, Copy, PartialEq, Eq, Structural)]
pub enum Admission {
    Accept,
    /// The peer's address is denied by the IP lists.
    DeniedIp,
    /// The service already has the most connections the settings allow.
    Full,
}

/// A connection from `ip` to a service with `current` connections: refused
/// when the IP lists deny the address, then when `current` has reached the
/// per-service limit; else taken.
pub fn admission(sys: &SystemSettings, ip: &str, current: usize) -> (r: Admission)
    ensures
        r == (if !ip_allowed(views(sys.ip_access.whitelist@), views(sys.ip_access.blacklist@), ip@) {
            Admission::DeniedIp
        } else if current >= sys.max_connections_per_server {
            Admission::Full
        } else {
            Admission::Accept
        }),
{
    if !allow_ip(sys.ip_access.whitelist.as_slice(), sys.ip_access.blacklist.as_slice(), ip) {
        Admission::DeniedIp
    } else if current as u64 >= sys.max_connections_per_server {
        Admission::Full
    } else {
        Admission::Accept
    }
}

// ==================== the pump ====================

/// The data handed on for a text that is not a frame: `{"raw": text}`.
pub open spec fn raw_data(text: Seq<char>) -> Seq<char> {
    object_text(RAW_FIELD@, text)
}

/// The action for `ev`; `parsed` is what the received text gave when read as
/// a frame (`None` when it is not one; it is read only for a received text).
pub open spec fn step_spec(ev: PumpEvent, parsed: Option<WsFrame>, r: PumpAction) -> bool {
    match ev {
        PumpEvent::Received(WireMsg::Text(t)) => match parsed {
            Some(f) => r matches PumpAction::Deliver { event, data } && event@ == f.event@ && data@ == f.data@,
            None => r matches PumpAction::Deliver { event, data } && event@ == RAW_EVENT@ && data@ == raw_data(t@),
        },
        PumpEvent::Received(WireMsg::Binary(b)) => r matches PumpAction::Deliver { event, data }
            && event@ == RAW_EVENT@ && data@ == raw_data(lossy_text(b@)),
        PumpEvent::Received(WireMsg::Close) => r is Stop,
        PumpEvent::Received(WireMsg::Noop) => r is Skip,
        PumpEvent::Queued(m) => r == PumpAction::Write(m),
        _ => r is Stop,
    }
}

/// One step of the pump: a frame is delivered as it is, any other text or
/// binary message as `message` with `{"raw": text}` (binary decoded as
/// lossy UTF-8), a close or any failure ends the connection, a queued
/// message is written, pings and pongs are skipped.
pub fn pump_step(ev: PumpEvent, parsed: Option<WsFrame>) -> (r: PumpAction)
    ensures
        step_spec(ev, parsed, r),
{
    match ev {
        PumpEvent::Received(WireMsg::Text(t)) => match parsed {
            Some(f) => PumpAction::Deliver { event: f.event, data: f.data },
            None => PumpAction::Deliver { event: RAW_EVENT.to_string(), data: one_field_object(RAW_FIELD, t.as_str()) },
        },
        PumpEvent::Received(WireMsg::Binary(b)) => {
            let text = utf8_lossy(b.as_slice());
            PumpAction::Deliver { event: RAW_EVENT.to_string(), data: one_field_object(RAW_FIELD, text.as_str()) }
        },
        PumpEvent::Received(WireMsg::Close) => PumpAction::Stop,
        PumpEvent::Received(WireMsg::Noop) => PumpAction::Skip,
        PumpEvent::Queued(m) => PumpAction::Write(m),
        PumpEvent::ReadFailed => PumpAction::Stop,
        PumpEvent::ReadEnded => PumpAction::Stop,
        PumpEvent::QueueClosed => PumpAction::Stop,
        PumpEvent::WriteFailed => PumpAction::Stop,
    }
}

/// The client a new connection announces: the raw socket id as id and socket
/// id, the service's id and protocol, the peer's address, connected now.
pub open spec fn announced(c: ClientInfo, raw_id: Seq<char>, ip: Seq<char>, cfg: ServerConfig) -> bool {
    &&& c.id@ == raw_id
    &&& c.socket_id@ == raw_id
    &&& c.server_id@ == cfg.id@
    &&& c.ip_address@ == ip
    &&& c.protocol == cfg.protocol
    &&& c.status == ClientStatus::Connected
    &&& c.connected_at@.len() > 0
    &&& c.last_activity_at@ == c.connected_at@
    &&& c.group is None
    &&& c.group_name is None
    &&& c.metadata is None
}

/// The client record of a new connection, stamped with the current time.
pub fn connection_info(raw_id: &str, ip: &str, cfg: &ServerConfig) -> (r: ClientInfo)
    ensures
        announced(r, raw_id@, ip@, *cfg),
{
    let now = now_rfc3339();
    ClientInfo {
        id: raw_id.to_string(),
        server_id: cfg.id.clone(),
        socket_id: raw_id.to_string(),
        ip_address: ip.to_string(),
        connected_at: now.clone(),
        last_activity_at: now,
        protocol: cfg.protocol,
        status: ClientStatus::Connected,
        group: None,
        group_name: None,
        metadata: None,
    }
}

} // verus!
