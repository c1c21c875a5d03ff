//! Core data model of the socket/mock server manager.
//!
//! Field names and meanings follow the JSON contract of the management API
//! (camelCase on the wire; the wire form lives outside this crate).

use vstd::prelude::*;

use crate::clock::now_rfc3339;

verus! {

broadcast use vstd::string::group_string_axioms;

// ======================== protocols and methods ========================

/// Wire protocol of a managed service.
#[derive(Debug, Clone, Copy, PartialEq, Eq, Structural)]
pub enum ProtocolType {
    Websocket,
    SocketIo,
    Http,
    /// Reserved protocol (adapter skeleton only).
    Tcp,
    /// Reserved protocol (adapter skeleton only).
    Udp,
    /// Reserved protocol (adapter skeleton only).
    Mqtt,
    /// Reserved protocol (adapter skeleton only).
    Sse,
}

impl Default for ProtocolType {
    fn default() -> (r: Self)
        ensures
            r == ProtocolType::Websocket,
    {
        ProtocolType::Websocket
    }
}

/// HTTP method of a route or mock rule (`Any` matches every method).
#[derive(Debug, Clone, Copy, PartialEq, Eq, Structural)]
pub enum HttpMethod {
    Get,
    Post,
    Put,
    Delete,
    Patch,
    Head,
    Options,
    Any,
}

impl Default for HttpMethod {
    fn default() -> (r: Self)
        ensures
            r == HttpMethod::Get,
    {
        HttpMethod::Get
    }
}

/// Upper-case name of a method.
pub open spec fn method_name(m: HttpMethod) -> Seq<char> {
    match m {
        HttpMethod::Get => seq!['G', 'E', 'T'],
        HttpMethod::Post => seq!['P', 'O', 'S', 'T'],
        HttpMethod::Put => seq!['P', 'U', 'T'],
        HttpMethod::Delete => seq!['D', 'E', 'L', 'E', 'T', 'E'],
        HttpMethod::Patch => seq!['P', 'A', 'T', 'C', 'H'],
        HttpMethod::Head => seq!['H', 'E', 'A', 'D'],
        HttpMethod::Options => seq!['O', 'P', 'T', 'I', 'O', 'N', 'S'],
        HttpMethod::Any => seq!['A', 'N', 'Y'],
    }
}

impl HttpMethod {
    /// Upper-case name, as written in configurations (`"GET"`, ..., `"ANY"`).
    pub fn as_str(&self) -> (r: &'static str)
        ensures
            r@ == method_name(*self),
    {
        match self {
            HttpMethod::Get => {
                proof {
                    reveal_strlit("GET");
                }
                "GET"
            },
            HttpMethod::Post => {
                proof {
                    reveal_strlit("POST");
                }
                "POST"
            },
            HttpMethod::Put => {
                proof {
                    reveal_strlit("PUT");
                }
                "PUT"
            },
            HttpMethod::Delete => {
                proof {
                    reveal_strlit("DELETE");
                }
                "DELETE"
            },
            HttpMethod::Patch => {
                proof {
                    reveal_strlit("PATCH");
                }
                "PATCH"
            },
            HttpMethod::Head => {
                proof {
                    reveal_strlit("HEAD");
                }
                "HEAD"
            },
            HttpMethod::Options => {
                proof {
                    reveal_strlit("OPTIONS");
                }
                "OPTIONS"
            },
            HttpMethod::Any => {
                proof {
                    reveal_strlit("ANY");
                }
                "ANY"
            },
        }
    }
}

/// Kind of a custom HTTP route of a managed HTTP service.
#[derive(Debug, Clone, Copy, PartialEq, Eq, Structural)]
pub enum HttpRouteType {
    /// Receives messages (JSON body) and hands them to the message hook.
    Inbound,
    /// Server-sent-events stream (server to client only).
    Stream,
}

impl Default for HttpRouteType {
    fn default() -> (r: Self)
        ensures
            r == HttpRouteType::Inbound,
    {
        HttpRouteType::Inbound
    }
}

/// A custom HTTP route of a managed HTTP service.
#[derive(Debug)]
pub struct HttpRouteConfig {
    pub id: String,
    pub method: HttpMethod,
    /// Path; `{event}` placeholders are allowed (`/{event}`, `/order/{event}`).
    pub path: String,
    pub route_type: HttpRouteType,
    /// Fixed event name; when absent the `{event}` segment or the last segment is used.
    pub event: Option<String>,
    pub description: Option<String>,
}

impl Clone for HttpRouteConfig {
    fn clone(&self) -> (r: Self)
        ensures
            r == *self,
    {
        HttpRouteConfig {
            id: self.id.clone(),
            method: self.method,
            path: self.path.clone(),
            route_type: self.route_type,
            event: self.event.clone(),
            description: self.description.clone(),
        }
    }
}

impl Default for HttpRouteConfig {
    fn default() -> (r: Self)
        ensures
            r.id@.len() == 0,
            r.method == HttpMethod::Get,
            r.path@.len() == 0,
            r.route_type == HttpRouteType::Inbound,
            r.event is None,
            r.description is None,
    {
        HttpRouteConfig {
            id: String::new(),
            method: HttpMethod::Get,
            path: String::new(),
            route_type: HttpRouteType::Inbound,
            event: None,
            description: None,
        }
    }
}

// ======================== logging levels ========================

/// Log level, ordered `Debug < Info < Warn < Error`.
#[derive(Debug, Clone, Copy, PartialEq, Eq, Structural)]
pub enum LogLevel {
    Debug,
    Info,
    Warn,
    Error,
}

impl Default for LogLevel {
    fn default() -> (r: Self)
        ensures
            r == LogLevel::Debug,
    {
        LogLevel::Debug
    }
}

/// Upper-case name of a level.
pub open spec fn level_name(l: LogLevel) -> Seq<char> {
    match l {
        LogLevel::Debug => seq!['D', 'E', 'B', 'U', 'G'],
        LogLevel::Info => seq!['I', 'N', 'F', 'O'],
        LogLevel::Warn => seq!['W', 'A', 'R', 'N'],
        LogLevel::Error => seq!['E', 'R', 'R', 'O', 'R'],
    }
}

/// Rank of a level in the order `Debug < Info < Warn < Error`.
pub open spec fn level_rank(l: LogLevel) -> int {
    match l {
        LogLevel::Debug => 0,
        LogLevel::Info => 1,
        LogLevel::Warn => 2,
        LogLevel::Error => 3,
    }
}

impl LogLevel {
    /// Upper-case name (`"DEBUG"`, `"INFO"`, `"WARN"`, `"ERROR"`).
    pub fn as_str(&self) -> (r: &'static str)
        ensures
            r@ == level_name(*self),
    {
        match self {
            LogLevel::Debug => {
                proof {
                    reveal_strlit("DEBUG");
                }
                "DEBUG"
            },
            LogLevel::Info => {
                proof {
                    reveal_strlit("INFO");
                }
                "INFO"
            },
            LogLevel::Warn => {
                proof {
                    reveal_strlit("WARN");
                }
                "WARN"
            },
            LogLevel::Error => {
                proof {
                    reveal_strlit("ERROR");
                }
                "ERROR"
            },
        }
    }
}

// ======================== mock rules ========================

/// A header / query condition of a mock rule.
#[derive(Debug)]
pub struct MockMatchCondition {
    pub key: String,
    pub value: String,
    /// `exact` / `contains` / `regex` / `exists` (anything else behaves as `exact`).
    pub match_kind: String,
    pub enabled: bool,
}

impl Clone for MockMatchCondition {
    fn clone(&self) -> (r: Self)
        ensures
            r == *self,
    {
        MockMatchCondition {
            key: self.key.clone(),
            value: self.value.clone(),
            match_kind: self.match_kind.clone(),
            enabled: self.enabled,
        }
    }
}

impl Default for MockMatchCondition {
    fn default() -> (r: Self)
        ensures
            r.key@.len() == 0,
            r.value@.len() == 0,
            r.match_kind@.len() == 0,
            !r.enabled,
    {
        MockMatchCondition {
            key: String::new(),
            value: String::new(),
            match_kind: String::new(),
            enabled: false,
        }
    }
}

/// The value a missing `matchKind` takes on input: `"exact"`.
pub fn default_match_kind() -> (r: String)
    ensures
        r@ == seq!['e', 'x', 'a', 'c', 't'],
{
    proof {
        reveal_strlit("exact");
    }
    "exact".to_owned()
}

/// The value a missing `enabled` flag takes on input: `true`.
pub fn default_true() -> (r: bool)
    ensures
        r,
{
    true
}

/// The status code a missing status takes on input: `200`.
pub fn default_response_status() -> (r: u16)
    ensures
        r == 200,
{
    200
}

/// The text `{"message":"ok"}`.
pub open spec fn ok_body() -> Seq<char> {
    seq!['{', '"', 'm', 'e', 's', 's', 'a', 'g', 'e', '"', ':', '"', 'o', 'k', '"', '}']
}

/// The body a missing response body takes on input: `{"message":"ok"}`.
pub fn default_response_body() -> (r: String)
    ensures
        r@ == ok_body(),
{
    proof {
        reveal_strlit("{\"message\":\"ok\"}");
    }
    "{\"message\":\"ok\"}".to_owned()
}

/// A mock rule: request pattern and canned response.
#[derive(Debug)]
pub struct MockRule {
    pub id: String,
    pub name: String,
    /// HTTP method (`Any` matches every method).
    pub method: HttpMethod,
    /// Path pattern: exact `/users`, prefix `/users/*`, parameters `/users/:id`.
    pub path_pattern: String,
    pub match_headers: Vec<MockMatchCondition>,
    pub match_query: Vec<MockMatchCondition>,
    /// Body must contain this text (absent or empty: no body condition).
    pub match_body: Option<String>,
    pub response_status_code: u16,
    pub response_headers: Vec<MockMatchCondition>,
    pub response_body: String,
    pub response_delay_ms: u32,
    pub enabled: bool,
    pub description: Option<String>,
}

/// Element-wise equal copies of a condition list.
pub fn clone_conditions(v: &Vec<MockMatchCondition>) -> (r: Vec<MockMatchCondition>)
    ensures
        r@ == v@,
{
    let r = v.clone();
    assert(r@ =~= v@);
    r
}

/// Mathematical value of a [`MockRule`] (its lists as sequences).
pub struct MockRuleView {
    pub id: String,
    pub name: String,
    pub method: HttpMethod,
    pub path_pattern: String,
    pub match_headers: Seq<MockMatchCondition>,
    pub match_query: Seq<MockMatchCondition>,
    pub match_body: Option<String>,
    pub response_status_code: u16,
    pub response_headers: Seq<MockMatchCondition>,
    pub response_body: String,
    pub response_delay_ms: u32,
    pub enabled: bool,
    pub description: Option<String>,
}

impl View for MockRule {
    type V = MockRuleView;

    open spec fn view(&self) -> MockRuleView {
        MockRuleView {
            id: self.id,
            name: self.name,
            method: self.method,
            path_pattern: self.path_pattern,
            match_headers: self.match_headers@,
            match_query: self.match_query@,
            match_body: self.match_body,
            response_status_code: self.response_status_code,
            response_headers: self.response_headers@,
            response_body: self.response_body,
            response_delay_ms: self.response_delay_ms,
            enabled: self.enabled,
            description: self.description,
        }
    }
}

impl Clone for MockRule {
    fn clone(&self) -> (r: Self)
        ensures
            r@ == self@,
    {
        MockRule {
            id: self.id.clone(),
            name: self.name.clone(),
            method: self.method,
            path_pattern: self.path_pattern.clone(),
            match_headers: clone_conditions(&self.match_headers),
            match_query: clone_conditions(&self.match_query),
            match_body: self.match_body.clone(),
            response_status_code: self.response_status_code,
            response_headers: clone_conditions(&self.response_headers),
            response_body: self.response_body.clone(),
            response_delay_ms: self.response_delay_ms,
            enabled: self.enabled,
            description: self.description.clone(),
        }
    }
}

impl Default for MockRule {
    fn default() -> (r: Self)
        ensures
            r.id@.len() == 0,
            r.name@.len() == 0,
            r.method == HttpMethod::Get,
            r.path_pattern@.len() == 0,
            r.match_headers@.len() == 0,
            r.match_query@.len() == 0,
            r.match_body is None,
            r.response_status_code == 0,
            r.response_headers@.len() == 0,
            r.response_body@.len() == 0,
            r.response_delay_ms == 0,
            !r.enabled,
            r.description is None,
    {
        MockRule {
            id: String::new(),
            name: String::new(),
            method: HttpMethod::Get,
            path_pattern: String::new(),
            match_headers: Vec::new(),
            match_query: Vec::new(),
            match_body: None,
            response_status_code: 0,
            response_headers: Vec::new(),
            response_body: String::new(),
            response_delay_ms: 0,
            enabled: false,
            description: None,
        }
    }
}

/// The values of a list of rules.
pub open spec fn rule_views(v: Seq<MockRule>) -> Seq<MockRuleView> {
    v.map_values(|r: MockRule| r@)
}

/// Copies of a rule list with the same values.
pub fn clone_rules(v: &Vec<MockRule>) -> (r: Vec<MockRule>)
    ensures
        rule_views(r@) == rule_views(v@),
{
    let r = v.clone();
    assert(rule_views(r@) =~= rule_views(v@));
    r
}

/// An independent mock service.
#[derive(Debug)]
pub struct MockServiceConfig {
    pub id: String,
    pub name: String,
    pub description: String,
    /// Mount path: a prefix on the main port, the root on a custom port.
    pub base_path: String,
    /// Custom port; `None` mounts the service on the main port.
    pub custom_port: Option<u16>,
    /// Status code when no rule matches.
    pub default_status_code: u16,
    /// Body when no rule matches.
    pub default_response_body: String,
    pub default_delay_ms: u32,
    pub enabled: bool,
    pub rules: Vec<MockRule>,
    pub created_at: String,
    pub updated_at: String,
}

/// Mathematical value of a [`MockServiceConfig`].
pub struct MockServiceView {
    pub id: String,
    pub name: String,
    pub description: String,
    pub base_path: String,
    pub custom_port: Option<u16>,
    pub default_status_code: u16,
    pub default_response_body: String,
    pub default_delay_ms: u32,
    pub enabled: bool,
    pub rules: Seq<MockRuleView>,
    pub created_at: String,
    pub updated_at: String,
}

impl View for MockServiceConfig {
    type V = MockServiceView;

    open spec fn view(&self) -> MockServiceView {
        MockServiceView {
            id: self.id,
            name: self.name,
            description: self.description,
            base_path: self.base_path,
            custom_port: self.custom_port,
            default_status_code: self.default_status_code,
            default_response_body: self.default_response_body,
            default_delay_ms: self.default_delay_ms,
            enabled: self.enabled,
            rules: rule_views(self.rules@),
            created_at: self.created_at,
            updated_at: self.updated_at,
        }
    }
}

impl Clone for MockServiceConfig {
    fn clone(&self) -> (r: Self)
        ensures
            r@ == self@,
    {
        MockServiceConfig {
            id: self.id.clone(),
            name: self.name.clone(),
            description: self.description.clone(),
            base_path: self.base_path.clone(),
            custom_port: self.custom_port,
            default_status_code: self.default_status_code,
            default_response_body: self.default_response_body.clone(),
            default_delay_ms: self.default_delay_ms,
            enabled: self.enabled,
            rules: clone_rules(&self.rules),
            created_at: self.created_at.clone(),
            updated_at: self.updated_at.clone(),
        }
    }
}

impl Default for MockServiceConfig {
    fn default() -> (r: Self)
        ensures
            r.id@.len() == 0,
            r.name@.len() == 0,
            r.description@.len() == 0,
            r.base_path@.len() == 0,
            r.custom_port is None,
            r.default_status_code == 0,
            r.default_response_body@.len() == 0,
            r.default_delay_ms == 0,
            !r.enabled,
            r.rules@.len() == 0,
            r.created_at@.len() == 0,
            r.updated_at@.len() == 0,
    {
        MockServiceConfig {
            id: String::new(),
            name: String::new(),
            description: String::new(),
            base_path: String::new(),
            custom_port: None,
            default_status_code: 0,
            default_response_body: String::new(),
            default_delay_ms: 0,
            enabled: false,
            rules: Vec::new(),
            created_at: String::new(),
            updated_at: String::new(),
        }
    }
}

// ======================== managed services ========================

/// Run state of a managed service.
#[derive(Debug, Clone, Copy, PartialEq, Eq, Structural)]
pub enum ServerStatus {
    Stopped,
    Running,
    Error,
    Starting,
    Stopping,
}

impl Default for ServerStatus {
    fn default() -> (r: Self)
        ensures
            r == ServerStatus::Stopped,
    {
        ServerStatus::Stopped
    }
}

/// Configuration of a managed service.
#[derive(Debug)]
pub struct ServerConfig {
    pub id: String,
    pub name: String,
    pub description: String,
    pub ip: String,
    pub port: u32,
    pub protocol: ProtocolType,
    pub auto_start: bool,
    pub log_level: LogLevel,
    pub wss_enabled: bool,
    pub cert_path: Option<String>,
    pub key_path: Option<String>,
    /// Custom HTTP routes (HTTP protocol only; empty means the built-in defaults).
    pub http_routes: Vec<HttpRouteConfig>,
    /// Serve mock HTTP responses on the same port (shared-port mode).
    pub mock_enabled: bool,
    /// Mock rules of the shared-port mode, matched in order.
    pub mock_rules: Vec<MockRule>,
    pub mock_default_status_code: u16,
    pub mock_default_response_body: String,
    pub mock_default_delay_ms: u32,
    pub created_at: String,
    pub updated_at: String,
}

/// Mathematical value of a [`ServerConfig`].
pub struct ServerConfigView {
    pub id: String,
    pub name: String,
    pub description: String,
    pub ip: String,
    pub port: u32,
    pub protocol: ProtocolType,
    pub auto_start: bool,
    pub log_level: LogLevel,
    pub wss_enabled: bool,
    pub cert_path: Option<String>,
    pub key_path: Option<String>,
    pub http_routes: Seq<HttpRouteConfig>,
    pub mock_enabled: bool,
    pub mock_rules: Seq<MockRuleView>,
    pub mock_default_status_code: u16,
    pub mock_default_response_body: String,
    pub mock_default_delay_ms: u32,
    pub created_at: String,
    pub updated_at: String,
}

impl View for ServerConfig {
    type V = ServerConfigView;

    open spec fn view(&self) -> ServerConfigView {
        ServerConfigView {
            id: self.id,
            name: self.name,
            description: self.description,
            ip: self.ip,
            port: self.port,
            protocol: self.protocol,
            auto_start: self.auto_start,
            log_level: self.log_level,
            wss_enabled: self.wss_enabled,
            cert_path: self.cert_path,
            key_path: self.key_path,
            http_routes: self.http_routes@,
            mock_enabled: self.mock_enabled,
            mock_rules: rule_views(self.mock_rules@),
            mock_default_status_code: self.mock_default_status_code,
            mock_default_response_body: self.mock_default_response_body,
            mock_default_delay_ms: self.mock_default_delay_ms,
            created_at: self.created_at,
            updated_at: self.updated_at,
        }
    }
}

/// Element-wise equal copies of a route list.
pub fn clone_routes(v: &Vec<HttpRouteConfig>) -> (r: Vec<HttpRouteConfig>)
    ensures
        r@ == v@,
{
    let r = v.clone();
    assert(r@ =~= v@);
    r
}

impl Clone for ServerConfig {
    fn clone(&self) -> (r: Self)
        ensures
            r@ == self@,
    {
        ServerConfig {
            id: self.id.clone(),
            name: self.name.clone(),
            description: self.description.clone(),
            ip: self.ip.clone(),
            port: self.port,
            protocol: self.protocol,
            auto_start: self.auto_start,
            log_level: self.log_level,
            wss_enabled: self.wss_enabled,
            cert_path: self.cert_path.clone(),
            key_path: self.key_path.clone(),
            http_routes: clone_routes(&self.http_routes),
            mock_enabled: self.mock_enabled,
            mock_rules: clone_rules(&self.mock_rules),
            mock_default_status_code: self.mock_default_status_code,
            mock_default_response_body: self.mock_default_response_body.clone(),
            mock_default_delay_ms: self.mock_default_delay_ms,
            created_at: self.created_at.clone(),
            updated_at: self.updated_at.clone(),
        }
    }
}

impl Default for ServerConfig {
    fn default() -> (r: Self)
        ensures
            r.id@.len() == 0,
            r.name@.len() == 0,
            r.description@.len() == 0,
            r.ip@ == seq!['0', '.', '0', '.', '0', '.', '0'],
            r.port == 0,
            r.protocol == ProtocolType::Websocket,
            !r.auto_start,
            r.log_level == LogLevel::Info,
            !r.wss_enabled,
            r.cert_path is None,
            r.key_path is None,
            r.http_routes@.len() == 0,
            !r.mock_enabled,
            r.mock_rules@.len() == 0,
            r.mock_default_status_code == 200,
            r.mock_default_response_body@ == ok_body(),
            r.mock_default_delay_ms == 0,
            r.created_at@.len() == 0,
            r.updated_at@.len() == 0,
    {
        proof {
            reveal_strlit("0.0.0.0");
        }
        ServerConfig {
            id: String::new(),
            name: String::new(),
            description: String::new(),
            ip: "0.0.0.0".to_owned(),
            port: 0,
            protocol: ProtocolType::Websocket,
            auto_start: false,
            log_level: LogLevel::Info,
            wss_enabled: false,
            cert_path: None,
            key_path: None,
            http_routes: Vec::new(),
            mock_enabled: false,
            mock_rules: Vec::new(),
            mock_default_status_code: 200,
            mock_default_response_body: default_response_body(),
            mock_default_delay_ms: 0,
            created_at: String::new(),
            updated_at: String::new(),
        }
    }
}

/// Runtime snapshot of a managed service.
#[derive(Debug)]
pub struct ServerRuntime {
    pub id: String,
    pub status: ServerStatus,
    pub started_at: Option<String>,
    pub stopped_at: Option<String>,
    pub error: Option<String>,
    pub client_count: usize,
    pub total_connections: u64,
    pub reconnect_count: u64,
    pub sent_messages: u64,
    pub received_messages: u64,
    pub sent_bytes: u64,
    pub received_bytes: u64,
}

impl Clone for ServerRuntime {
    fn clone(&self) -> (r: Self)
        ensures
            r == *self,
    {
        ServerRuntime {
            id: self.id.clone(),
            status: self.status,
            started_at: self.started_at.clone(),
            stopped_at: self.stopped_at.clone(),
            error: self.error.clone(),
            client_count: self.client_count,
            total_connections: self.total_connections,
            reconnect_count: self.reconnect_count,
            sent_messages: self.sent_messages,
            received_messages: self.received_messages,
            sent_bytes: self.sent_bytes,
            received_bytes: self.received_bytes,
        }
    }
}

/// A fresh runtime record: given id, `Stopped`, everything else zero or absent.
pub open spec fn fresh_runtime(r: ServerRuntime, id: Seq<char>) -> bool {
    &&& r.id@ == id
    &&& r.status == ServerStatus::Stopped
    &&& r.started_at is None
    &&& r.stopped_at is None
    &&& r.error is None
    &&& r.client_count == 0
    &&& r.total_connections == 0
    &&& r.reconnect_count == 0
    &&& r.sent_messages == 0
    &&& r.received_messages == 0
    &&& r.sent_bytes == 0
    &&& r.received_bytes == 0
}

impl ServerRuntime {
    /// A fresh runtime record for service `id`.
    pub fn fresh(id: &String) -> (r: Self)
        ensures
            fresh_runtime(r, id@),
    {
        ServerRuntime {
            id: id.clone(),
            status: ServerStatus::Stopped,
            started_at: None,
            stopped_at: None,
            error: None,
            client_count: 0,
            total_connections: 0,
            reconnect_count: 0,
            sent_messages: 0,
            received_messages: 0,
            sent_bytes: 0,
            received_bytes: 0,
        }
    }
}

impl Default for ServerRuntime {
    fn default() -> (r: Self)
        ensures
            fresh_runtime(r, Seq::<char>::empty()),
    {
        ServerRuntime::fresh(&String::new())
    }
}

// ======================== events ========================

/// Whether a timed event is active.
#[derive(Debug, Clone, Copy, PartialEq, Eq, Structural)]
pub enum EventStatus {
    Enabled,
    Disabled,
}

impl Default for EventStatus {
    fn default() -> (r: Self)
        ensures
            r == EventStatus::Enabled,
    {
        EventStatus::Enabled
    }
}

/// A named event of a managed service, optionally pushed on a timer.
#[derive(Debug)]
pub struct EventConfig {
    pub id: String,
    pub server_id: String,
    pub name: String,
    pub is_default: bool,
    pub status: EventStatus,
    pub description: Option<String>,
    pub handler: Option<String>,
    pub default_message: Option<String>,
    pub polling_enabled: bool,
    /// Interval in milliseconds.
    pub polling_interval: Option<u64>,
    pub created_at: String,
    pub updated_at: String,
}

impl Clone for EventConfig {
    fn clone(&self) -> (r: Self)
        ensures
            r == *self,
    {
        EventConfig {
            id: self.id.clone(),
            server_id: self.server_id.clone(),
            name: self.name.clone(),
            is_default: self.is_default,
            status: self.status,
            description: self.description.clone(),
            handler: self.handler.clone(),
            default_message: self.default_message.clone(),
            polling_enabled: self.polling_enabled,
            polling_interval: self.polling_interval,
            created_at: self.created_at.clone(),
            updated_at: self.updated_at.clone(),
        }
    }
}

impl Default for EventConfig {
    fn default() -> (r: Self)
        ensures
            r.id@.len() == 0,
            r.server_id@.len() == 0,
            r.name@.len() == 0,
            !r.is_default,
            r.status == EventStatus::Enabled,
            r.description is None,
            r.handler is None,
            r.default_message is None,
            !r.polling_enabled,
            r.polling_interval is None,
            r.created_at@.len() == 0,
            r.updated_at@.len() == 0,
    {
        EventConfig {
            id: String::new(),
            server_id: String::new(),
            name: String::new(),
            is_default: false,
            status: EventStatus::Enabled,
            description: None,
            handler: None,
            default_message: None,
            polling_enabled: false,
            polling_interval: None,
            created_at: String::new(),
            updated_at: String::new(),
        }
    }
}

// ======================== clients ========================

/// Connection state of a client.
#[derive(Debug, Clone, Copy, PartialEq, Eq, Structural)]
pub enum ClientStatus {
    Connected,
    Disconnected,
}

impl Default for ClientStatus {
    fn default() -> (r: Self)
        ensures
            r == ClientStatus::Connected,
    {
        ClientStatus::Connected
    }
}

/// Client grouping.
#[derive(Debug, Clone, Copy, PartialEq, Eq, Structural)]
pub enum ClientGroupType {
    Custom,
    Device,
    User,
    Webpage,
}

impl Default for ClientGroupType {
    fn default() -> (r: Self)
        ensures
            r == ClientGroupType::Custom,
    {
        ClientGroupType::Custom
    }
}

/// A connected client of a managed service.
#[derive(Debug)]
pub struct ClientInfo {
    /// Raw socket id (without the service prefix).
    pub id: String,
    pub server_id: String,
    pub socket_id: String,
    pub ip_address: String,
    pub connected_at: String,
    pub last_activity_at: String,
    pub protocol: ProtocolType,
    pub status: ClientStatus,
    pub group: Option<ClientGroupType>,
    pub group_name: Option<String>,
    /// Free-form metadata as JSON text.
    pub metadata: Option<String>,
}

impl Clone for ClientInfo {
    fn clone(&self) -> (r: Self)
        ensures
            r == *self,
    {
        ClientInfo {
            id: self.id.clone(),
            server_id: self.server_id.clone(),
            socket_id: self.socket_id.clone(),
            ip_address: self.ip_address.clone(),
            connected_at: self.connected_at.clone(),
            last_activity_at: self.last_activity_at.clone(),
            protocol: self.protocol,
            status: self.status,
            group: self.group,
            group_name: self.group_name.clone(),
            metadata: self.metadata.clone(),
        }
    }
}

impl Default for ClientInfo {
    fn default() -> (r: Self)
        ensures
            r.id@.len() == 0,
            r.server_id@.len() == 0,
            r.socket_id@.len() == 0,
            r.ip_address@.len() == 0,
            r.connected_at@.len() == 0,
            r.last_activity_at@.len() == 0,
            r.protocol == ProtocolType::Websocket,
            r.status == ClientStatus::Connected,
            r.group is None,
            r.group_name is None,
            r.metadata is None,
    {
        ClientInfo {
            id: String::new(),
            server_id: String::new(),
            socket_id: String::new(),
            ip_address: String::new(),
            connected_at: String::new(),
            last_activity_at: String::new(),
            protocol: ProtocolType::Websocket,
            status: ClientStatus::Connected,
            group: None,
            group_name: None,
            metadata: None,
        }
    }
}

// ======================== logs ========================

/// One log line.
#[derive(Debug)]
pub struct LogEntry {
    pub id: String,
    pub server_id: Option<String>,
    pub level: LogLevel,
    pub event: String,
    pub message: String,
    pub client_id: Option<String>,
    pub timestamp: String,
    /// Free-form metadata as JSON text.
    pub metadata: Option<String>,
}

impl Clone for LogEntry {
    fn clone(&self) -> (r: Self)
        ensures
            r == *self,
    {
        LogEntry {
            id: self.id.clone(),
            server_id: self.server_id.clone(),
            level: self.level,
            event: self.event.clone(),
            message: self.message.clone(),
            client_id: self.client_id.clone(),
            timestamp: self.timestamp.clone(),
            metadata: self.metadata.clone(),
        }
    }
}

impl Default for LogEntry {
    fn default() -> (r: Self)
        ensures
            r.id@.len() == 0,
            r.server_id is None,
            r.level == LogLevel::Debug,
            r.event@.len() == 0,
            r.message@.len() == 0,
            r.client_id is None,
            r.timestamp@.len() == 0,
            r.metadata is None,
    {
        LogEntry {
            id: String::new(),
            server_id: None,
            level: LogLevel::Debug,
            event: String::new(),
            message: String::new(),
            client_id: None,
            timestamp: String::new(),
            metadata: None,
        }
    }
}

/// Log query filter (all parts optional).
#[derive(Debug)]
pub struct LogFilter {
    pub server_id: Option<String>,
    /// Minimum level.
    pub level: Option<LogLevel>,
    /// Case-insensitive keyword in the message or the service id.
    pub keyword: Option<String>,
}

impl Clone for LogFilter {
    fn clone(&self) -> (r: Self)
        ensures
            r == *self,
    {
        LogFilter {
            server_id: self.server_id.clone(),
            level: self.level,
            keyword: self.keyword.clone(),
        }
    }
}

impl Default for LogFilter {
    fn default() -> (r: Self)
        ensures
            r.server_id is None,
            r.level is None,
            r.keyword is None,
    {
        LogFilter { server_id: None, level: None, keyword: None }
    }
}

// ======================== settings ========================

/// Heartbeat settings (milliseconds).
#[derive(Debug, Clone, Copy, PartialEq, Eq, Structural)]
pub struct HeartbeatConfig {
    pub enabled: bool,
    pub ping_interval: u64,
    pub pong_timeout: u64,
}

impl Default for HeartbeatConfig {
    fn default() -> (r: Self)
        ensures
            r == (HeartbeatConfig { enabled: true, ping_interval: 30_000, pong_timeout: 90_000 }),
    {
        HeartbeatConfig { enabled: true, ping_interval: 30_000, pong_timeout: 90_000 }
    }
}

/// IP allow list and deny list.
#[derive(Debug)]
pub struct IpAccessList {
    pub whitelist: Vec<String>,
    pub blacklist: Vec<String>,
}

/// Element-wise equal copies of a string list.
pub fn clone_strings(v: &Vec<String>) -> (r: Vec<String>)
    ensures
        r@ == v@,
{
    let r = v.clone();
    assert(r@ =~= v@);
    r
}

/// Mathematical value of an [`IpAccessList`].
pub struct IpAccessView {
    pub whitelist: Seq<String>,
    pub blacklist: Seq<String>,
}

impl View for IpAccessList {
    type V = IpAccessView;

    open spec fn view(&self) -> IpAccessView {
        IpAccessView { whitelist: self.whitelist@, blacklist: self.blacklist@ }
    }
}

impl Clone for IpAccessList {
    fn clone(&self) -> (r: Self)
        ensures
            r@ == self@,
    {
        IpAccessList {
            whitelist: clone_strings(&self.whitelist),
            blacklist: clone_strings(&self.blacklist),
        }
    }
}

impl Default for IpAccessList {
    fn default() -> (r: Self)
        ensures
            r.whitelist@.len() == 0,
            r.blacklist@.len() == 0,
    {
        IpAccessList { whitelist: Vec::new(), blacklist: Vec::new() }
    }
}

/// TLS settings.
#[derive(Debug)]
pub struct WssConfig {
    pub enabled: bool,
    pub cert_path: String,
    pub key_path: String,
}

impl Clone for WssConfig {
    fn clone(&self) -> (r: Self)
        ensures
            r == *self,
    {
        WssConfig {
            enabled: self.enabled,
            cert_path: self.cert_path.clone(),
            key_path: self.key_path.clone(),
        }
    }
}

impl Default for WssConfig {
    fn default() -> (r: Self)
        ensures
            !r.enabled,
            r.cert_path@.len() == 0,
            r.key_path@.len() == 0,
    {
        WssConfig { enabled: false, cert_path: String::new(), key_path: String::new() }
    }
}

/// System-wide settings.
#[derive(Debug)]
pub struct SystemSettings {
    pub id: String,
    pub heartbeat: HeartbeatConfig,
    pub wss: WssConfig,
    pub ip_access: IpAccessList,
    pub auto_start: bool,
    pub start_minimized: bool,
    pub log_retention_days: u64,
    pub max_connections_per_server: u64,
    pub updated_at: String,
}

/// Mathematical value of [`SystemSettings`].
pub struct SystemSettingsView {
    pub id: String,
    pub heartbeat: HeartbeatConfig,
    pub wss: WssConfig,
    pub ip_access: IpAccessView,
    pub auto_start: bool,
    pub start_minimized: bool,
    pub log_retention_days: u64,
    pub max_connections_per_server: u64,
    pub updated_at: String,
}

impl View for SystemSettings {
    type V = SystemSettingsView;

    open spec fn view(&self) -> SystemSettingsView {
        SystemSettingsView {
            id: self.id,
            heartbeat: self.heartbeat,
            wss: self.wss,
            ip_access: self.ip_access@,
            auto_start: self.auto_start,
            start_minimized: self.start_minimized,
            log_retention_days: self.log_retention_days,
            max_connections_per_server: self.max_connections_per_server,
            updated_at: self.updated_at,
        }
    }
}

impl Clone for SystemSettings {
    fn clone(&self) -> (r: Self)
        ensures
            r@ == self@,
    {
        SystemSettings {
            id: self.id.clone(),
            heartbeat: self.heartbeat,
            wss: self.wss.clone(),
            ip_access: self.ip_access.clone(),
            auto_start: self.auto_start,
            start_minimized: self.start_minimized,
            log_retention_days: self.log_retention_days,
            max_connections_per_server: self.max_connections_per_server,
            updated_at: self.updated_at.clone(),
        }
    }
}

impl Default for SystemSettings {
    fn default() -> (r: Self)
        ensures
            r.id@.len() == 0,
            r.heartbeat == (HeartbeatConfig {
                enabled: true,
                ping_interval: 30_000,
                pong_timeout: 90_000,
            }),
            !r.wss.enabled,
            r.wss.cert_path@.len() == 0,
            r.wss.key_path@.len() == 0,
            r.ip_access.whitelist@.len() == 0,
            r.ip_access.blacklist@.len() == 0,
            !r.auto_start,
            !r.start_minimized,
            r.log_retention_days == 0,
            r.max_connections_per_server == 0,
            r.updated_at@.len() == 0,
    {
        SystemSettings {
            id: String::new(),
            heartbeat: HeartbeatConfig::default(),
            wss: WssConfig::default(),
            ip_access: IpAccessList::default(),
            auto_start: false,
            start_minimized: false,
            log_retention_days: 0,
            max_connections_per_server: 0,
            updated_at: String::new(),
        }
    }
}

/// Main window geometry.
#[derive(Debug, Clone, Copy, PartialEq, Eq, Structural)]
pub struct WindowConfig {
    pub width: u32,
    pub height: u32,
    pub x: Option<i32>,
    pub y: Option<i32>,
    pub maximized: bool,
}

impl Default for WindowConfig {
    fn default() -> (r: Self)
        ensures
            r == (WindowConfig { width: 1280, height: 800, x: None, y: None, maximized: false }),
    {
        WindowConfig { width: 1280, height: 800, x: None, y: None, maximized: false }
    }
}

// ======================== API envelope ========================

/// Standard API envelope `{ success, data?, errorCode?, error?, message?, timestamp }`.
#[derive(Debug)]
pub struct ApiResponse<T> {
    pub success: bool,
    pub data: Option<T>,
    pub error_code: Option<String>,
    pub error: Option<String>,
    pub message: Option<String>,
    pub timestamp: String,
}

impl<T> ApiResponse<T> {
    /// A success envelope carrying `data` and an optional message, stamped now.
    pub fn success(data: T, message: Option<String>) -> (r: Self)
        ensures
            r.success,
            r.data == Some(data),
            r.error_code is None,
            r.error is None,
            r.message == message,
            r.timestamp@.len() > 0,
    {
        ApiResponse {
            success: true,
            data: Some(data),
            error_code: None,
            error: None,
            message,
            timestamp: now_rfc3339(),
        }
    }
}

impl<T> Default for ApiResponse<T> {
    fn default() -> (r: Self)
        ensures
            !r.success,
            r.data is None,
            r.error_code is None,
            r.error is None,
            r.message is None,
            r.timestamp@.len() > 0,
    {
        ApiResponse {
            success: false,
            data: None,
            error_code: None,
            error: None,
            message: None,
            timestamp: now_rfc3339(),
        }
    }
}

// ======================== scenes ========================

/// An ordered group of services started and stopped together.
#[derive(Debug)]
pub struct SceneConfig {
    pub id: String,
    pub name: String,
    pub description: Option<String>,
    /// Service ids: started in this order, stopped in reverse order.
    pub server_ids: Vec<String>,
    pub enabled: bool,
    pub created_at: String,
    pub updated_at: String,
}

/// Mathematical value of a [`SceneConfig`].
pub struct SceneView {
    pub id: String,
    pub name: String,
    pub description: Option<String>,
    pub server_ids: Seq<String>,
    pub enabled: bool,
    pub created_at: String,
    pub updated_at: String,
}

impl View for SceneConfig {
    type V = SceneView;

    open spec fn view(&self) -> SceneView {
        SceneView {
            id: self.id,
            name: self.name,
            description: self.description,
            server_ids: self.server_ids@,
            enabled: self.enabled,
            created_at: self.created_at,
            updated_at: self.updated_at,
        }
    }
}

impl Clone for SceneConfig {
    fn clone(&self) -> (r: Self)
        ensures
            r@ == self@,
    {
        SceneConfig {
            id: self.id.clone(),
            name: self.name.clone(),
            description: self.description.clone(),
            server_ids: clone_strings(&self.server_ids),
            enabled: self.enabled,
            created_at: self.created_at.clone(),
            updated_at: self.updated_at.clone(),
        }
    }
}

impl Default for SceneConfig {
    fn default() -> (r: Self)
        ensures
            r.id@.len() == 0,
            r.name@.len() == 0,
            r.description is None,
            r.server_ids@.len() == 0,
            !r.enabled,
            r.created_at@.len() == 0,
            r.updated_at@.len() == 0,
    {
        SceneConfig {
            id: String::new(),
            name: String::new(),
            description: None,
            server_ids: Vec::new(),
            enabled: false,
            created_at: String::new(),
            updated_at: String::new(),
        }
    }
}

/// Outcome of starting one service of a scene.
#[derive(Debug)]
pub struct SceneServerResult {
    pub server_id: String,
    pub success: bool,
    pub error: Option<String>,
}

// ======================== persisted configuration ========================

/// The whole persisted configuration.
#[derive(Debug)]
pub struct PersistedConfig {
    pub servers: Vec<ServerConfig>,
    pub events: Vec<EventConfig>,
    pub mock_services: Vec<MockServiceConfig>,
    pub scenes: Vec<SceneConfig>,
    pub system_settings: SystemSettings,
    pub window_config: WindowConfig,
    pub version: String,
    pub exported_at: String,
}

/// The schema version a configuration without one takes: `1.1.0`.
pub fn default_version() -> (r: String)
    ensures
        r@ == seq!['1', '.', '1', '.', '0'],
{
    proof {
        reveal_strlit("1.1.0");
    }
    "1.1.0".to_owned()
}

impl Default for PersistedConfig {
    fn default() -> (r: Self)
        ensures
            r.servers@.len() == 0,
            r.events@.len() == 0,
            r.mock_services@.len() == 0,
            r.scenes@.len() == 0,
            r.system_settings.id@.len() == 0,
            r.window_config == (WindowConfig {
                width: 1280,
                height: 800,
                x: None,
                y: None,
                maximized: false,
            }),
            r.version@ == seq!['1', '.', '1', '.', '0'],
            r.exported_at@.len() == 0,
    {
        PersistedConfig {
            servers: Vec::new(),
            events: Vec::new(),
            mock_services: Vec::new(),
            scenes: Vec::new(),
            system_settings: SystemSettings::default(),
            window_config: WindowConfig::default(),
            version: default_version(),
            exported_at: String::new(),
        }
    }
}

} // verus!

verus! {

/// The values of a list of service configurations.
pub open spec fn server_views(v: Seq<ServerConfig>) -> Seq<ServerConfigView> {
    v.map_values(|s: ServerConfig| s@)
}

/// The values of a list of mock services.
pub open spec fn mock_views(v: Seq<MockServiceConfig>) -> Seq<MockServiceView> {
    v.map_values(|s: MockServiceConfig| s@)
}

/// The values of a list of scenes.
pub open spec fn scene_views(v: Seq<SceneConfig>) -> Seq<SceneView> {
    v.map_values(|s: SceneConfig| s@)
}

/// Copies of a service list with the same values.
pub fn clone_servers(v: &Vec<ServerConfig>) -> (r: Vec<ServerConfig>)
    ensures
        server_views(r@) == server_views(v@),
{
    let r = v.clone();
    assert(server_views(r@) =~= server_views(v@));
    r
}

/// Copies of an event list.
pub fn clone_events(v: &Vec<EventConfig>) -> (r: Vec<EventConfig>)
    ensures
        r@ == v@,
{
    let r = v.clone();
    assert(r@ =~= v@);
    r
}

/// Copies of a mock service list with the same values.
pub fn clone_mock_services(v: &Vec<MockServiceConfig>) -> (r: Vec<MockServiceConfig>)
    ensures
        mock_views(r@) == mock_views(v@),
{
    let r = v.clone();
    assert(mock_views(r@) =~= mock_views(v@));
    r
}

/// Copies of a scene list with the same values.
pub fn clone_scenes(v: &Vec<SceneConfig>) -> (r: Vec<SceneConfig>)
    ensures
        scene_views(r@) == scene_views(v@),
{
    let r = v.clone();
    assert(scene_views(r@) =~= scene_views(v@));
    r
}

/// Mathematical value of a [`PersistedConfig`].
pub struct PersistedView {
    pub servers: Seq<ServerConfigView>,
    pub events: Seq<EventConfig>,
    pub mock_services: Seq<MockServiceView>,
    pub scenes: Seq<SceneView>,
    pub system_settings: SystemSettingsView,
    pub window_config: WindowConfig,
    pub version: String,
    pub exported_at: String,
}

impl View for PersistedConfig {
    type V = PersistedView;

    open spec fn view(&self) -> PersistedView {
        PersistedView {
            servers: server_views(self.servers@),
            events: self.events@,
            mock_services: mock_views(self.mock_services@),
            scenes: scene_views(self.scenes@),
            system_settings: self.system_settings@,
            window_config: self.window_config,
            version: self.version,
            exported_at: self.exported_at,
        }
    }
}

impl Clone for PersistedConfig {
    fn clone(&self) -> (r: Self)
        ensures
            r@ == self@,
    {
        PersistedConfig {
            servers: clone_servers(&self.servers),
            events: clone_events(&self.events),
            mock_services: clone_mock_services(&self.mock_services),
            scenes: clone_scenes(&self.scenes),
            system_settings: self.system_settings.clone(),
            window_config: self.window_config,
            version: self.version.clone(),
            exported_at: self.exported_at.clone(),
        }
    }
}

} // verus!
