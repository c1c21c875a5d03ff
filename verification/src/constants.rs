//! Global constants and defaults.

use vstd::prelude::*;

verus! {

/// Loopback address of the REST API and the admin WebSocket.
pub const BIND_HOST: &'static str = "127.0.0.1";

/// Default REST API port (the environment may override it).
pub const DEFAULT_API_PORT: u16 = 3080;

/// Path of the admin WebSocket.
pub const ADMIN_WS_PATH: &'static str = "/admin/ws";

/// Interval of the admin heartbeat, in milliseconds.
pub const HEARTBEAT_INTERVAL_MS: u64 = 10_000;

/// An admin connection without `heartbeat_ack` for this long is dropped.
pub const HEARTBEAT_TIMEOUT_MS: u64 = 30_000;

/// Capacity of the in-memory log buffer.
pub const LOG_MEMORY_LIMIT: usize = 2_000;

/// Number of log lines in the initial `log_batch`.
pub const LOG_BATCH_INITIAL: usize = 100;

/// Separator of composite client ids (`serverId___socketId`).
pub const CLIENT_ID_SEP: &'static str = "___";

/// Clamp ranges of the system settings.
pub const PING_INTERVAL_MIN: u64 = 5_000;
pub const PING_INTERVAL_MAX: u64 = 300_000;
pub const PONG_TIMEOUT_MIN: u64 = 10_000;
pub const PONG_TIMEOUT_MAX: u64 = 600_000;
pub const LOG_RETENTION_MIN: u64 = 1;
pub const LOG_RETENTION_MAX: u64 = 365;
pub const MAX_CONNECTIONS_MIN: u64 = 1;
pub const MAX_CONNECTIONS_MAX: u64 = 10_000;

/// Event names, backend to frontend.
pub const EVT_RUNTIME_UPDATE: &'static str = "runtime_update";
pub const EVT_CLIENT_UPDATE: &'static str = "client_update";
pub const EVT_LOG_UPDATE: &'static str = "log_update";
pub const EVT_LOG_BATCH: &'static str = "log_batch";
pub const EVT_HEARTBEAT: &'static str = "heartbeat";

/// Event name, frontend to backend.
pub const EVT_HEARTBEAT_ACK: &'static str = "heartbeat_ack";

/// Wait before retrying a bind after freeing a port, in milliseconds.
pub const PORT_RELEASE_RETRY_DELAY_MS: u64 = 800;

} // verus!
