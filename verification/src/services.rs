//! Lifecycle bookkeeping of the managed services: the runtime snapshot of each
//! service, which services have a live transport, the checks made before a
//! start, and what each connection event does to the counters, the client
//! registry and the log. The transports themselves run outside this crate.

use vstd::prelude::*;

use crate::adapter::{kind_of_config, AdapterKind};
use crate::clients::{client_key, composite_spec, sep, ClientManager};
use crate::clock::now_rfc3339;
use crate::config::{first_server_at, ConfigManager};
use crate::constants::{CLIENT_ID_SEP, LOG_MEMORY_LIMIT};
use crate::error::BackendError;
use crate::keyed::{distinct, entry_map, find_index, get_value, has_key, lemma_entry_at, remove_key, upsert};
use crate::logs::{ring_push, LogManager};
use crate::text::{concat, contains_sub, find, occurs_at, first_occurrence_at, lemma_first_occurrence_unique, str_eq, chars_of, string_from_range};
use crate::types::{
    fresh_runtime, ClientInfo, LogEntry, LogLevel, ProtocolType, SceneConfig, SceneServerResult,
    ServerConfig, ServerRuntime, ServerStatus, SystemSettings,
};

verus! {

broadcast use vstd::string::group_string_axioms;

// ======================== start checks ========================

/// What a start request comes to once checked.
#[derive(Debug)]
pub enum StartPlan {
    /// The service already has a live transport: nothing to do.
    AlreadyRunning,
    /// Launch a transport of `kind` for `cfg` under the system settings `sys`.
    Launch { kind: AdapterKind, cfg: ServerConfig, sys: SystemSettings },
}

/// A start request for `id` is answered `AlreadyRunning`, with nothing to
/// do, when the service has a live transport.
pub open spec fn start_is_noop(running: Set<Seq<char>>, id: Seq<char>) -> bool {
    running.contains(id)
}

/// The refusal of Socket.IO on a shared mock port.
pub open spec fn socketio_mock_refusal() -> Seq<char> {
    "Socket.IO 协议不支持与 Mock HTTP 共端口（统一路由模式）。请关闭该服务的 Mock，或改用 WebSocket / HTTP 协议。"@
}

// ======================== message targets ========================

/// The socket a message addressed to `actual` goes to: the part after the
/// first `___` of a composite id, else `actual` itself.
pub open spec fn target_socket(actual: Seq<char>) -> Seq<char> {
    if contains_sub(actual, sep()) {
        let i = choose|i: int| first_occurrence_at(actual, sep(), i);
        actual.subrange(i + 3, actual.len() as int)
    } else {
        actual
    }
}

/// The text of an optional string slice.
pub open spec fn opt_str(o: Option<&str>) -> Option<Seq<char>> {
    match o {
        Some(t) => Some(t@),
        None => None,
    }
}

/// `r` is where a message with this target goes: nowhere in particular
/// (`None`, a broadcast) for target type `broadcast` or no target id, else
/// the socket id of the target id.
pub open spec fn routed_to(target_type: Seq<char>, target_id: Option<Seq<char>>, r: Option<String>) -> bool {
    match target_id {
        Some(t) => if target_type == "broadcast"@ {
            r is None
        } else {
            (r matches Some(s) && s@ == target_socket(t))
        },
        None => r is None,
    }
}

/// Where a message goes: `None` broadcasts (target type `broadcast`, or no
/// target id), `Some(socket)` sends to one socket.
pub fn resolve_target(target_type: &str, target_id: Option<&str>) -> (r: Option<String>)
    ensures
        routed_to(target_type@, opt_str(target_id), r),
{
    match target_id {
        None => None,
        Some(actual) => {
            if str_eq(target_type, "broadcast") {
                return None;
            }
            proof {
                reveal_strlit("___");
                assert(CLIENT_ID_SEP@ =~= sep());
            }
            let v = chars_of(actual);
            match find(actual, CLIENT_ID_SEP) {
                Some(i) => {
                    proof {
                        let c = choose|c: int| first_occurrence_at(actual@, sep(), c);
                        lemma_first_occurrence_unique(actual@, sep(), i as int, c);
                    }
                    Some(string_from_range(&v, i + 3, v.len()))
                },
                None => Some(actual.to_owned()),
            }
        },
    }
}

// ======================== scenes ========================

/// The result row of one service of a scene start.
pub fn scene_result(server_id: &String, outcome: &Result<(), BackendError>) -> (r: SceneServerResult)
    ensures
        r.server_id == *server_id,
        match outcome {
            Ok(_) => r.success && r.error is None,
            Err(e) => !r.success && (r.error matches Some(m) && m@ == crate::error::message_of(*e)),
        },
{
    match outcome {
        Ok(()) => SceneServerResult { server_id: server_id.clone(), success: true, error: None },
        Err(e) => SceneServerResult {
            server_id: server_id.clone(),
            success: false,
            error: Some(e.message()),
        },
    }
}

/// The order a scene's services are stopped in: the reverse of its start order.
pub fn stop_order(scene: &SceneConfig) -> (r: Vec<String>)
    ensures
        r@ == scene.server_ids@.reverse(),
{
    let ids = &scene.server_ids;
    let mut out: Vec<String> = Vec::new();
    let mut i = ids.len();
    while i > 0
        invariant
            i <= ids@.len(),
            out@ == ids@.subrange(i as int, ids@.len() as int).reverse(),
        decreases i,
    {
        i -= 1;
        out.push(ids[i].clone());
        proof {
            assert(ids@.subrange(i as int, ids@.len() as int).reverse() =~= ids@.subrange(
                i + 1,
                ids@.len() as int,
            ).reverse().push(ids@[i as int]));
        }
    }
    proof {
        assert(ids@.subrange(0, ids@.len() as int) =~= ids@);
    }
    out
}

// ======================== log lines of connection events ========================

/// A log line of service `sid` at level `Info`.
pub open spec fn info_line(r: LogEntry, sid: Seq<char>, event: Seq<char>, message: Seq<char>, client: Seq<char>) -> bool {
    &&& r.server_id matches Some(s) && s@ == sid
    &&& r.level == LogLevel::Info
    &&& r.event@ == event
    &&& r.message@ == message
    &&& r.client_id matches Some(c) && c@ == client
}

fn info_entry(sid: &str, event: String, message: String, client: String, metadata: Option<String>) -> (r: LogEntry)
    ensures
        r.server_id matches Some(s) && s@ == sid@,
        r.level == LogLevel::Info,
        r.event == event,
        r.message == message,
        r.client_id == Some(client),
        r.metadata == metadata,
        r.id@.len() == 0,
        r.timestamp@.len() == 0,
{
    LogEntry {
        id: String::new(),
        server_id: Some(sid.to_owned()),
        level: LogLevel::Info,
        event,
        message,
        client_id: Some(client),
        timestamp: String::new(),
        metadata,
    }
}

// ======================== the manager ========================

/// Runtime bookkeeping of the managed services.
pub struct ServiceManager {
    runtimes: Vec<(String, ServerRuntime)>,
    running: Vec<(String, ())>,
}

impl ServiceManager {
    /// Well-formed: one runtime per id, stored under its own id, and one
    /// entry per running id.
    pub closed spec fn wf(&self) -> bool {
        &&& distinct(self.runtimes@)
        &&& distinct(self.running@)
        &&& forall|i: int| 0 <= i < self.runtimes@.len() ==> #[trigger] self.runtimes@[i].0@ == self.runtimes@[i].1.id@
    }

    /// The runtime snapshot of each service, by id.
    pub closed spec fn rt(&self) -> Map<Seq<char>, ServerRuntime> {
        entry_map(self.runtimes@)
    }

    /// The ids of the services with a live transport.
    pub closed spec fn running(&self) -> Set<Seq<char>> {
        entry_map(self.running@).dom()
    }

    /// No service known, none running.
    pub fn new() -> (r: Self)
        ensures
            r.wf(),
            r.rt() == Map::<Seq<char>, ServerRuntime>::empty(),
            r.running() == Set::<Seq<char>>::empty(),
    {
        let r = ServiceManager { runtimes: Vec::new(), running: Vec::new() };
        assert(r.rt() =~= Map::<Seq<char>, ServerRuntime>::empty());
        assert(r.running() =~= Set::<Seq<char>>::empty());
        r
    }

    /// The runtime snapshot of service `id`.
    pub fn get_runtime(&self, id: &str) -> (r: Option<ServerRuntime>)
        requires
            self.wf(),
        ensures
            match r {
                Some(x) => self.rt().contains_key(id@) && self.rt()[id@] == x,
                None => !self.rt().contains_key(id@),
            },
    {
        match get_value(&self.runtimes, id) {
            Some(x) => Some(x.clone()),
            None => None,
        }
    }

    /// Stores `x` as the runtime of its own id.
    fn put_runtime(&mut self, x: ServerRuntime)
        requires
            old(self).wf(),
        ensures
            final(self).wf(),
            final(self).rt() == old(self).rt().insert(x.id@, x),
            final(self).running() == old(self).running(),
    {
        let ghost old_v = self.runtimes@;
        let ghost xv = x;
        let key = x.id.clone();
        upsert(&mut self.runtimes, key, x);
        proof {
            assert forall|i: int| 0 <= i < self.runtimes@.len() implies #[trigger] self.runtimes@[i].0@
                == self.runtimes@[i].1.id@ by {
                if i < old_v.len() && old_v[i].0@ != xv.id@ {
                    assert(self.runtimes@[i] == old_v[i]);
                } else {
                    lemma_entry_at(self.runtimes@, i);
                    if i < old_v.len() {
                        assert(self.runtimes@[i].0@ == old_v[i].0@);
                    }
                }
            }
        }
    }

    /// Every runtime snapshot, each under its service id.
    pub fn get_runtimes(&self) -> (r: Vec<(String, ServerRuntime)>)
        requires
            self.wf(),
        ensures
            distinct(r@),
            entry_map(r@) == self.rt(),
            forall|i: int| 0 <= i < r@.len() ==> #[trigger] r@[i].0@ == r@[i].1.id@,
    {
        let mut r: Vec<(String, ServerRuntime)> = Vec::new();
        let mut i: usize = 0;
        while i < self.runtimes.len()
            invariant
                i <= self.runtimes@.len(),
                r@.len() == i,
                forall|j: int| 0 <= j < i ==> #[trigger] r@[j].0@ == self.runtimes@[j].0@ && r@[j].1 == self.runtimes@[j].1,
            decreases self.runtimes.len() - i,
        {
            r.push((self.runtimes[i].0.clone(), self.runtimes[i].1.clone()));
            i += 1;
        }
        proof {
            assert forall|a: int, b: int| 0 <= a < r@.len() && 0 <= b < r@.len() && a != b implies r@[a].0@ != r@[b].0@ by {
                assert(r@[a].0@ == self.runtimes@[a].0@);
                assert(r@[b].0@ == self.runtimes@[b].0@);
            }
            assert forall|k: Seq<char>| has_key(r@, k) <==> has_key(self.runtimes@, k) by {
                if has_key(r@, k) {
                    let j = choose|j: int| 0 <= j < r@.len() && r@[j].0@ == k;
                    assert(self.runtimes@[j].0@ == k);
                }
                if has_key(self.runtimes@, k) {
                    let j = choose|j: int| 0 <= j < self.runtimes@.len() && self.runtimes@[j].0@ == k;
                    assert(r@[j].0@ == k);
                }
            }
            assert forall|k: Seq<char>| #[trigger] entry_map(r@).contains_key(k) implies entry_map(r@)[k] == entry_map(self.runtimes@)[k] by {
                let j = choose|j: int| 0 <= j < r@.len() && r@[j].0@ == k;
                lemma_entry_at(r@, j);
                lemma_entry_at(self.runtimes@, j);
            }
            assert(entry_map(r@) =~= entry_map(self.runtimes@));
            assert forall|j: int| 0 <= j < r@.len() implies #[trigger] r@[j].0@ == r@[j].1.id@ by {
                assert(self.runtimes@[j].0@ == self.runtimes@[j].1.id@);
            }
        }
        r
    }

    /// Whether service `id` has a live transport.
    pub fn is_running(&self, id: &str) -> (r: bool)
        ensures
            r == self.running().contains(id@),
    {
        find_index(&self.running, id).is_some()
    }

    /// A send, broadcast or disconnect on service `id` needs its live
    /// transport: `TransportNotFound` when it has none.
    pub fn require_transport(&self, id: &str) -> (r: Result<(), BackendError>)
        ensures
            r is Ok <==> self.running().contains(id@),
            r is Err ==> r == Err::<(), BackendError>(BackendError::TransportNotFound),
    {
        if self.is_running(id) {
            Ok(())
        } else {
            Err(BackendError::TransportNotFound)
        }
    }

    /// Where a message of service `server_id` goes: `TransportNotFound` when
    /// the service has no live transport, else the target as
    /// [`resolve_target`] gives it (`None` broadcasts).
    pub fn send_plan(&self, server_id: &str, target_type: &str, target_id: Option<&str>) -> (r: Result<Option<String>, BackendError>)
        ensures
            !self.running().contains(server_id@) <==> r is Err,
            r is Err ==> r == Err::<Option<String>, BackendError>(BackendError::TransportNotFound),
            r matches Ok(t) ==> routed_to(target_type@, opt_str(target_id), t),
    {
        match self.require_transport(server_id) {
            Err(e) => Err(e),
            Ok(()) => Ok(resolve_target(target_type, target_id)),
        }
    }

    /// The ids of the services with a live transport.
    pub fn running_ids(&self) -> (r: Vec<String>)
        requires
            self.wf(),
        ensures
            forall|k: Seq<char>| self.running().contains(k) <==> exists|i: int| 0 <= i < r@.len() && r@[i]@ == k,
    {
        let mut out: Vec<String> = Vec::new();
        let mut i: usize = 0;
        while i < self.running.len()
            invariant
                i <= self.running@.len(),
                out@.len() == i,
                forall|j: int| 0 <= j < i ==> #[trigger] out@[j]@ == self.running@[j].0@,
            decreases self.running.len() - i,
        {
            out.push(self.running[i].0.clone());
            i += 1;
        }
        proof {
            assert forall|k: Seq<char>| self.running().contains(k) <==> exists|i: int|
                0 <= i < out@.len() && out@[i]@ == k by {
                if self.running().contains(k) {
                    let j = choose|j: int| 0 <= j < self.running@.len() && self.running@[j].0@ == k;
                    assert(out@[j]@ == k);
                }
                if exists|i: int| 0 <= i < out@.len() && out@[i]@ == k {
                    let j = choose|j: int| 0 <= j < out@.len() && out@[j]@ == k;
                    assert(self.running@[j].0@ == k);
                    assert(has_key(self.running@, k));
                }
            }
        }
        out
    }

    /// Fresh `Stopped` runtimes for the services of `config` (earlier
    /// snapshots are dropped; running transports are untouched).
    pub fn reload(&mut self, config: &ConfigManager)
        requires
            old(self).wf(),
        ensures
            final(self).wf(),
            final(self).running() == old(self).running(),
            forall|k: Seq<char>| final(self).rt().contains_key(k) <==> exists|i: int|
                0 <= i < config@.servers.len() && config@.servers[i].id@ == k,
            forall|k: Seq<char>| #[trigger] final(self).rt().contains_key(k) ==> fresh_runtime(final(self).rt()[k], k),
    {
        let servers = config.get_servers();
        self.runtimes = Vec::new();
        assert(self.rt() =~= Map::<Seq<char>, ServerRuntime>::empty());
        let mut i: usize = 0;
        while i < servers.len()
            invariant
                self.wf(),
                i <= servers@.len(),
                self.running() == old(self).running(),
                crate::types::server_views(servers@) == config@.servers,
                forall|k: Seq<char>| self.rt().contains_key(k) <==> exists|j: int|
                    0 <= j < i && servers@[j].id@ == k,
                forall|k: Seq<char>| #[trigger] self.rt().contains_key(k) ==> fresh_runtime(self.rt()[k], k),
            decreases servers.len() - i,
        {
            let x = ServerRuntime::fresh(&servers[i].id);
            self.put_runtime(x);
            proof {
                assert forall|k: Seq<char>| self.rt().contains_key(k) <==> exists|j: int|
                    0 <= j < i + 1 && servers@[j].id@ == k by {
                    if k == servers@[i as int].id@ {
                    } else if self.rt().contains_key(k) {
                        let j = choose|j: int| 0 <= j < i && servers@[j].id@ == k;
                    } else if exists|j: int| 0 <= j < i + 1 && servers@[j].id@ == k {
                        let j = choose|j: int| 0 <= j < i + 1 && servers@[j].id@ == k;
                        assert(j < i);
                    }
                }
            }
            i += 1;
        }
        proof {
            assert forall|k: Seq<char>| self.rt().contains_key(k) <==> exists|j: int|
                0 <= j < config@.servers.len() && config@.servers[j].id@ == k by {
                if exists|j: int| 0 <= j < servers@.len() && servers@[j].id@ == k {
                    let j = choose|j: int| 0 <= j < servers@.len() && servers@[j].id@ == k;
                    assert(config@.servers[j].id@ == k);
                }
                if exists|j: int| 0 <= j < config@.servers.len() && config@.servers[j].id@ == k {
                    let j = choose|j: int| 0 <= j < config@.servers.len() && config@.servers[j].id@ == k;
                    assert(servers@[j].id@ == k);
                }
            }
        }
    }

    /// A fresh `Stopped` runtime for a newly configured service.
    pub fn register_server(&mut self, cfg: ServerConfig)
        requires
            old(self).wf(),
        ensures
            final(self).wf(),
            final(self).running() == old(self).running(),
            final(self).rt() == old(self).rt().insert(cfg.id@, final(self).rt()[cfg.id@]),
            fresh_runtime(final(self).rt()[cfg.id@], cfg.id@),
    {
        let x = ServerRuntime::fresh(&cfg.id);
        self.put_runtime(x);
    }

    /// Forgets service `id`, unless it has a live transport: whether it was
    /// allowed (forgetting an unknown service is allowed too).
    pub fn remove_server(&mut self, id: &str) -> (r: bool)
        requires
            old(self).wf(),
        ensures
            final(self).wf(),
            r == !old(self).running().contains(id@),
            final(self).running() == old(self).running(),
            r ==> final(self).rt() == old(self).rt().remove(id@),
            !r ==> final(self).rt() == old(self).rt(),
    {
        if self.is_running(id) {
            return false;
        }
        let ghost old_v = self.runtimes@;
        let _ = remove_key(&mut self.runtimes, id);
        proof {
            if has_key(old_v, id@) {
                let i = choose|i: int| 0 <= i < old_v.len() && old_v[i].0@ == id@ && self.runtimes@ == old_v.remove(i);
                assert forall|a: int| 0 <= a < self.runtimes@.len() implies #[trigger] self.runtimes@[a].0@
                    == self.runtimes@[a].1.id@ by {
                    if a < i {
                        assert(self.runtimes@[a] == old_v[a]);
                    } else {
                        assert(self.runtimes@[a] == old_v[a + 1]);
                    }
                }
            }
        }
        true
    }

    /// The checks before starting service `id`: nothing to do when it runs
    /// already; `ServerNotFound` when it is not configured; a configuration
    /// error for Socket.IO with a shared mock port; else the adapter to
    /// launch with the service's configuration and the system settings.
    pub fn start_plan(&self, config: &ConfigManager, id: &str) -> (r: Result<StartPlan, BackendError>)
        ensures
            start_is_noop(self.running(), id@) ==> r matches Ok(StartPlan::AlreadyRunning),
            !start_is_noop(self.running(), id@) ==> match r {
                Ok(StartPlan::AlreadyRunning) => false,
                Ok(StartPlan::Launch { kind, cfg, sys }) => exists|i: int| {
                    &&& first_server_at(config@.servers, id@, i)
                    &&& cfg@ == config@.servers[i]
                    &&& !(cfg.mock_enabled && cfg.protocol == ProtocolType::SocketIo)
                    &&& kind == kind_of_config(cfg.mock_enabled, cfg.protocol)
                    &&& sys@ == config@.system_settings
                },
                Err(BackendError::ServerNotFound) => forall|i: int|
                    0 <= i < config@.servers.len() ==> config@.servers[i].id@ != id@,
                Err(BackendError::Config(m)) => m@ == socketio_mock_refusal() && exists|i: int| {
                    &&& first_server_at(config@.servers, id@, i)
                    &&& config@.servers[i].mock_enabled
                    &&& config@.servers[i].protocol == ProtocolType::SocketIo
                },
                Err(_) => false,
            },
    {
        if self.is_running(id) {
            return Ok(StartPlan::AlreadyRunning);
        }
        let cfg = match config.get_server_by_id(id) {
            Some(c) => c,
            None => return Err(BackendError::ServerNotFound),
        };
        let sys = config.get_system_settings();
        if cfg.mock_enabled && cfg.protocol == ProtocolType::SocketIo {
            return Err(BackendError::Config(
                "Socket.IO 协议不支持与 Mock HTTP 共端口（统一路由模式）。请关闭该服务的 Mock，或改用 WebSocket / HTTP 协议。".to_owned(),
            ));
        }
        let kind = AdapterKind::from_cfg(&cfg);
        Ok(StartPlan::Launch { kind, cfg, sys })
    }

    /// Records that service `id` now has a live transport: it is running,
    /// started now, without error (a missing runtime is created first).
    pub fn mark_started(&mut self, id: &str)
        requires
            old(self).wf(),
        ensures
            final(self).wf(),
            final(self).running() == old(self).running().insert(id@),
            final(self).rt() == old(self).rt().insert(id@, final(self).rt()[id@]),
            final(self).rt()[id@].status == ServerStatus::Running,
            final(self).rt()[id@].error is None,
            final(self).rt()[id@].started_at matches Some(t) && t@.len() > 0,
            old(self).rt().contains_key(id@) ==> final(self).rt()[id@] == (ServerRuntime {
                status: ServerStatus::Running,
                started_at: final(self).rt()[id@].started_at,
                error: None,
                ..old(self).rt()[id@]
            }),
            !old(self).rt().contains_key(id@) ==> fresh_runtime(
                ServerRuntime {
                    status: ServerStatus::Stopped,
                    started_at: None,
                    ..final(self).rt()[id@]
                },
                id@,
            ),
    {
        let key = id.to_owned();
        let ghost old_running = self.running@;
        upsert(&mut self.running, key, ());
        proof {
            assert(entry_map(self.running@).dom() =~= entry_map(old_running).dom().insert(id@));
        }
        let mut x = match self.get_runtime(id) {
            Some(x) => x,
            None => ServerRuntime::fresh(&id.to_owned()),
        };
        x.status = ServerStatus::Running;
        x.started_at = Some(now_rfc3339());
        x.error = None;
        self.put_runtime(x);
    }

    /// Forgets the live transport of service `id`: whether there was one
    /// (which the caller then stops).
    pub fn take_transport(&mut self, id: &str) -> (r: bool)
        requires
            old(self).wf(),
        ensures
            final(self).wf(),
            r == old(self).running().contains(id@),
            final(self).running() == old(self).running().remove(id@),
            final(self).rt() == old(self).rt(),
    {
        let ghost old_running = self.running@;
        let was = remove_key(&mut self.running, id);
        proof {
            assert(entry_map(self.running@).dom() =~= entry_map(old_running).dom().remove(id@));
        }
        was.is_some()
    }

    /// Records that service `id` stopped now (an unknown service is ignored).
    pub fn mark_stopped(&mut self, id: &str)
        requires
            old(self).wf(),
        ensures
            final(self).wf(),
            final(self).running() == old(self).running(),
            old(self).rt().contains_key(id@) ==> {
                &&& final(self).rt() == old(self).rt().insert(id@, final(self).rt()[id@])
                &&& final(self).rt()[id@] == (ServerRuntime {
                    status: ServerStatus::Stopped,
                    stopped_at: final(self).rt()[id@].stopped_at,
                    ..old(self).rt()[id@]
                })
                &&& final(self).rt()[id@].stopped_at matches Some(t) && t@.len() > 0
            },
            !old(self).rt().contains_key(id@) ==> final(self).rt() == old(self).rt(),
    {
        match self.get_runtime(id) {
            Some(x) => {
                let mut x = x;
                x.status = ServerStatus::Stopped;
                x.stopped_at = Some(now_rfc3339());
                proof {
                    assert(x.id@ == id@) by {
                        let i = choose|i: int| 0 <= i < self.runtimes@.len() && self.runtimes@[i].0@ == id@;
                        lemma_entry_at(self.runtimes@, i);
                    }
                }
                self.put_runtime(x);
            },
            None => {},
        }
    }

    /// Counts one more message sent by service `id` (an unknown service is ignored).
    pub fn increment_sent_messages(&mut self, id: &str)
        requires
            old(self).wf(),
            old(self).rt().contains_key(id@) ==> old(self).rt()[id@].sent_messages < u64::MAX,
        ensures
            final(self).wf(),
            final(self).running() == old(self).running(),
            old(self).rt().contains_key(id@) ==> final(self).rt() == old(self).rt().insert(
                id@,
                ServerRuntime { sent_messages: (old(self).rt()[id@].sent_messages + 1) as u64, ..old(self).rt()[id@] },
            ),
            !old(self).rt().contains_key(id@) ==> final(self).rt() == old(self).rt(),
    {
        match self.get_runtime(id) {
            Some(x) => {
                let mut x = x;
                x.sent_messages = x.sent_messages + 1;
                proof {
                    let i = choose|i: int| 0 <= i < self.runtimes@.len() && self.runtimes@[i].0@ == id@;
                    lemma_entry_at(self.runtimes@, i);
                }
                self.put_runtime(x);
            },
            None => {},
        }
    }

    /// A client connected to service `sid`: it is registered, the service
    /// counts one more current and one more total connection, and a
    /// `client_connect` line is logged (and returned for publishing).
    pub fn on_connect(&mut self, sid: &str, clients: &mut ClientManager, logs: &mut LogManager, info: ClientInfo) -> (r: LogEntry)
        requires
            old(self).wf(),
            old(clients).wf(),
            old(logs).wf(),
            old(self).rt().contains_key(sid@) ==> {
                &&& old(self).rt()[sid@].client_count < usize::MAX
                &&& old(self).rt()[sid@].total_connections < u64::MAX
            },
        ensures
            final(self).wf(),
            final(clients).wf(),
            final(logs).wf(),
            final(self).running() == old(self).running(),
            final(clients)@ == old(clients)@.insert(client_key(info), info),
            old(self).rt().contains_key(sid@) ==> final(self).rt() == old(self).rt().insert(
                sid@,
                ServerRuntime {
                    client_count: (old(self).rt()[sid@].client_count + 1) as usize,
                    total_connections: (old(self).rt()[sid@].total_connections + 1) as u64,
                    ..old(self).rt()[sid@]
                },
            ),
            !old(self).rt().contains_key(sid@) ==> final(self).rt() == old(self).rt(),
            info_line(r, sid@, "client_connect"@, "客户端已连接: "@ + info.id@, info.id@),
            r.metadata is None,
            final(logs)@ == ring_push(old(logs)@, r, LOG_MEMORY_LIMIT as int),
    {
        let client = info.id.clone();
        clients.add(info);
        match self.get_runtime(sid) {
            Some(x) => {
                let mut x = x;
                x.client_count = x.client_count + 1;
                x.total_connections = x.total_connections + 1;
                proof {
                    let i = choose|i: int| 0 <= i < self.runtimes@.len() && self.runtimes@[i].0@ == sid@;
                    lemma_entry_at(self.runtimes@, i);
                }
                self.put_runtime(x);
            },
            None => {},
        }
        let message = concat("客户端已连接: ", client.as_str());
        let entry = info_entry(sid, "client_connect".to_owned(), message, client, None);
        logs.add_entry(entry)
    }

    /// A client of service `sid` sent `event` with `data` (JSON text): the
    /// service counts one more received message and the message is logged.
    pub fn on_message(&mut self, sid: &str, logs: &mut LogManager, socket_id: String, event: String, data: String) -> (r: LogEntry)
        requires
            old(self).wf(),
            old(logs).wf(),
            old(self).rt().contains_key(sid@) ==> old(self).rt()[sid@].received_messages < u64::MAX,
        ensures
            final(self).wf(),
            final(logs).wf(),
            final(self).running() == old(self).running(),
            old(self).rt().contains_key(sid@) ==> final(self).rt() == old(self).rt().insert(
                sid@,
                ServerRuntime {
                    received_messages: (old(self).rt()[sid@].received_messages + 1) as u64,
                    ..old(self).rt()[sid@]
                },
            ),
            !old(self).rt().contains_key(sid@) ==> final(self).rt() == old(self).rt(),
            info_line(r, sid@, event@, "收到消息 ["@ + socket_id@ + "]: "@ + event@, socket_id@),
            r.metadata == Some(data),
            final(logs)@ == ring_push(old(logs)@, r, LOG_MEMORY_LIMIT as int),
    {
        match self.get_runtime(sid) {
            Some(x) => {
                let mut x = x;
                x.received_messages = x.received_messages + 1;
                proof {
                    let i = choose|i: int| 0 <= i < self.runtimes@.len() && self.runtimes@[i].0@ == sid@;
                    lemma_entry_at(self.runtimes@, i);
                }
                self.put_runtime(x);
            },
            None => {},
        }
        let head = concat("收到消息 [", socket_id.as_str());
        let mid = concat(head.as_str(), "]: ");
        let message = concat(mid.as_str(), event.as_str());
        let entry = info_entry(sid, event, message, socket_id, Some(data));
        logs.add_entry(entry)
    }

    /// A client of service `sid` disconnected: it leaves the registry, the
    /// service counts one connection less (never below zero) and a
    /// `client_disconnect` line is logged.
    pub fn on_disconnect(&mut self, sid: &str, clients: &mut ClientManager, logs: &mut LogManager, socket_id: String) -> (r: LogEntry)
        requires
            old(self).wf(),
            old(clients).wf(),
            old(logs).wf(),
        ensures
            final(self).wf(),
            final(clients).wf(),
            final(logs).wf(),
            final(self).running() == old(self).running(),
            final(clients)@ == old(clients)@.remove(composite_spec(sid@, socket_id@)),
            old(self).rt().contains_key(sid@) ==> final(self).rt() == old(self).rt().insert(
                sid@,
                ServerRuntime {
                    client_count: if old(self).rt()[sid@].client_count > 0 {
                        (old(self).rt()[sid@].client_count - 1) as usize
                    } else {
                        0
                    },
                    ..old(self).rt()[sid@]
                },
            ),
            !old(self).rt().contains_key(sid@) ==> final(self).rt() == old(self).rt(),
            info_line(r, sid@, "client_disconnect"@, "客户端已断开: "@ + socket_id@, socket_id@),
            r.metadata is None,
            final(logs)@ == ring_push(old(logs)@, r, LOG_MEMORY_LIMIT as int),
    {
        clients.remove(sid, socket_id.as_str());
        match self.get_runtime(sid) {
            Some(x) => {
                let mut x = x;
                x.client_count = if x.client_count > 0 { x.client_count - 1 } else { 0 };
                proof {
                    let i = choose|i: int| 0 <= i < self.runtimes@.len() && self.runtimes@[i].0@ == sid@;
                    lemma_entry_at(self.runtimes@, i);
                }
                self.put_runtime(x);
            },
            None => {},
        }
        let message = concat("客户端已断开: ", socket_id.as_str());
        let entry = info_entry(sid, "client_disconnect".to_owned(), message, socket_id, None);
        logs.add_entry(entry)
    }

    /// After a message was sent by service `server_id`: one more sent message
    /// is counted and the message center line is logged (`data` is the JSON
    /// text of the payload, `metadata` that of the target description).
    pub fn record_sent(
        &mut self,
        logs: &mut LogManager,
        server_id: &str,
        event: &str,
        data: &str,
        metadata: String,
    ) -> (r: LogEntry)
        requires
            old(self).wf(),
            old(logs).wf(),
            old(self).rt().contains_key(server_id@) ==> old(self).rt()[server_id@].sent_messages < u64::MAX,
        ensures
            final(self).wf(),
            final(logs).wf(),
            final(self).running() == old(self).running(),
            old(self).rt().contains_key(server_id@) ==> final(self).rt() == old(self).rt().insert(
                server_id@,
                ServerRuntime {
                    sent_messages: (old(self).rt()[server_id@].sent_messages + 1) as u64,
                    ..old(self).rt()[server_id@]
                },
            ),
            !old(self).rt().contains_key(server_id@) ==> final(self).rt() == old(self).rt(),
            r.server_id matches Some(s) && s@ == server_id@,
            r.level == LogLevel::Info,
            r.event@ == event@,
            r.message@ == "[消息中心] 发送 → 事件: "@ + event@ + ", 内容: "@ + data@,
            r.client_id is None,
            r.metadata == Some(metadata),
            final(logs)@ == ring_push(old(logs)@, r, LOG_MEMORY_LIMIT as int),
    {
        self.increment_sent_messages(server_id);
        let a = concat("[消息中心] 发送 → 事件: ", event);
        let b = concat(a.as_str(), ", 内容: ");
        let message = concat(b.as_str(), data);
        let entry = LogEntry {
            id: String::new(),
            server_id: Some(server_id.to_owned()),
            level: LogLevel::Info,
            event: event.to_owned(),
            message,
            client_id: None,
            timestamp: String::new(),
            metadata: Some(metadata),
        };
        logs.add_entry(entry)
    }
}

// ======================== laws ========================

/// Starting is idempotent: once a service has been marked started (running,
/// status `Running`, no error, a start time), every further start request
/// for it is answered `AlreadyRunning` and, [`ServiceManager::start_plan`]
/// taking the manager by shared reference, leaves its runtimes as they are.
pub proof fn law_start_is_idempotent(before: ServiceManager, after: ServiceManager, id: Seq<char>)
    requires
        after.running() == before.running().insert(id),
        after.rt() == before.rt().insert(id, after.rt()[id]),
        after.rt()[id].status == ServerStatus::Running,
        after.rt()[id].error is None,
        after.rt()[id].started_at is Some,
    ensures
        start_is_noop(after.running(), id),
        after.rt().contains_key(id),
        after.rt()[id].status == ServerStatus::Running && after.rt()[id].error is None,
{
}

/// A running service cannot be removed; a stopped one can, and is then gone.
pub proof fn law_remove_guard(before: Map<Seq<char>, ServerRuntime>, running: Set<Seq<char>>, id: Seq<char>)
    requires
        !running.contains(id),
    ensures
        !before.remove(id).contains_key(id),
        forall|k: Seq<char>| k != id ==> (before.remove(id).contains_key(k) == before.contains_key(k)),
{
}

/// A message to a composite id `serverId___socketId` reaches the socket id,
/// provided the first `___` of the composite id is the separator (the
/// service id holds no `___` and does not end in `_`).
pub proof fn law_target_of_composite(server_id: Seq<char>, socket_id: Seq<char>)
    requires
        first_occurrence_at(composite_spec(server_id, socket_id), sep(), server_id.len() as int),
    ensures
        target_socket(composite_spec(server_id, socket_id)) == socket_id,
{
    let s = composite_spec(server_id, socket_id);
    let n = server_id.len() as int;
    assert(occurs_at(s, sep(), n));
    let c = choose|c: int| first_occurrence_at(s, sep(), c);
    lemma_first_occurrence_unique(s, sep(), n, c);
    assert(s.subrange(n + 3, s.len() as int) =~= socket_id);
}

} // verus!
