//! Protocol adapter kinds: which transport implementation serves a service.

use vstd::prelude::*;

use crate::types::{ProtocolType, ServerConfig};

verus! {

/// Kind of protocol adapter (the key of the adapter registry).
#[derive(Debug, Clone, Copy, PartialEq, Eq, Structural, Hash)]
pub enum AdapterKind {
    Websocket,
    SocketIo,
    Http,
    /// Shared-port mode: mock HTTP and the socket protocol on one port.
    Unified,
    /// Reserved protocol (skeleton only).
    Tcp,
    /// Reserved protocol (skeleton only).
    Udp,
    /// Reserved protocol (skeleton only).
    Mqtt,
    /// Reserved protocol (skeleton only).
    Sse,
}

/// The adapter of a protocol.
pub open spec fn kind_of_protocol(p: ProtocolType) -> AdapterKind {
    match p {
        ProtocolType::Websocket => AdapterKind::Websocket,
        ProtocolType::SocketIo => AdapterKind::SocketIo,
        ProtocolType::Http => AdapterKind::Http,
        ProtocolType::Tcp => AdapterKind::Tcp,
        ProtocolType::Udp => AdapterKind::Udp,
        ProtocolType::Mqtt => AdapterKind::Mqtt,
        ProtocolType::Sse => AdapterKind::Sse,
    }
}

/// The adapter of a service: the shared-port one when its mock is enabled,
/// else the one of its protocol.
pub open spec fn kind_of_config(mock_enabled: bool, p: ProtocolType) -> AdapterKind {
    if mock_enabled {
        AdapterKind::Unified
    } else {
        kind_of_protocol(p)
    }
}

/// Registry name of a kind.
pub open spec fn kind_name(k: AdapterKind) -> Seq<char> {
    match k {
        AdapterKind::Websocket => "websocket"@,
        AdapterKind::SocketIo => "socketio"@,
        AdapterKind::Http => "http"@,
        AdapterKind::Unified => "unified"@,
        AdapterKind::Tcp => "tcp"@,
        AdapterKind::Udp => "udp"@,
        AdapterKind::Mqtt => "mqtt"@,
        AdapterKind::Sse => "sse"@,
    }
}

impl AdapterKind {
    /// The adapter of a service (see [`kind_of_config`]).
    pub fn from_cfg(cfg: &ServerConfig) -> (r: AdapterKind)
        ensures
            r == kind_of_config(cfg.mock_enabled, cfg.protocol),
    {
        if cfg.mock_enabled {
            AdapterKind::Unified
        } else {
            Self::from_protocol(cfg.protocol)
        }
    }

    /// The adapter of a protocol.
    pub fn from_protocol(p: ProtocolType) -> (r: AdapterKind)
        ensures
            r == kind_of_protocol(p),
    {
        match p {
            ProtocolType::Websocket => AdapterKind::Websocket,
            ProtocolType::SocketIo => AdapterKind::SocketIo,
            ProtocolType::Http => AdapterKind::Http,
            ProtocolType::Tcp => AdapterKind::Tcp,
            ProtocolType::Udp => AdapterKind::Udp,
            ProtocolType::Mqtt => AdapterKind::Mqtt,
            ProtocolType::Sse => AdapterKind::Sse,
        }
    }

    /// Registry name of this kind.
    pub fn as_str(&self) -> (r: &'static str)
        ensures
            r@ == kind_name(*self),
    {
        match self {
            AdapterKind::Websocket => "websocket",
            AdapterKind::SocketIo => "socketio",
            AdapterKind::Http => "http",
            AdapterKind::Unified => "unified",
            AdapterKind::Tcp => "tcp",
            AdapterKind::Udp => "udp",
            AdapterKind::Mqtt => "mqtt",
            AdapterKind::Sse => "sse",
        }
    }
}

/// The kinds the built-in registry holds: the four implemented transports and
/// the four reserved skeletons.
pub fn builtin_kinds() -> (r: Vec<AdapterKind>)
    ensures
        r@ == seq![
            AdapterKind::Websocket,
            AdapterKind::SocketIo,
            AdapterKind::Http,
            AdapterKind::Unified,
            AdapterKind::Tcp,
            AdapterKind::Udp,
            AdapterKind::Mqtt,
            AdapterKind::Sse,
        ],
{
    let mut v = Vec::new();
    v.push(AdapterKind::Websocket);
    v.push(AdapterKind::SocketIo);
    v.push(AdapterKind::Http);
    v.push(AdapterKind::Unified);
    v.push(AdapterKind::Tcp);
    v.push(AdapterKind::Udp);
    v.push(AdapterKind::Mqtt);
    v.push(AdapterKind::Sse);
    v
}

/// Every protocol has an adapter of its own, and the shared-port adapter is
/// chosen only for services with their mock enabled.
pub proof fn law_kind_selection(p: ProtocolType, q: ProtocolType, mock: bool)
    ensures
        kind_of_protocol(p) == kind_of_protocol(q) ==> p == q,
        kind_of_protocol(p) != AdapterKind::Unified,
        (kind_of_config(mock, p) == AdapterKind::Unified) == mock,
{
}

} // verus!
