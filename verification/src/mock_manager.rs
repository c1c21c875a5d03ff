//! Independent mock services: validation of their configuration, their
//! bookkeeping in the configuration store, which of them are running (and on
//! which port), and which running service serves a path of the main port.
//! Listening on custom ports is the caller's business.

use vstd::prelude::*;

use crate::clock::{new_uuid, now_rfc3339, uuid_shaped};
use crate::config::{first_mock_at, ConfigManager};
use crate::keyed::{distinct, entry_map, get_value, remove_key, upsert};
use crate::mock::{dispatched, service_dispatch, MockResponse};
use crate::text::{concat, has_prefix, starts_with, str_eq, trim_end, trim_end_spec};
use crate::types::{mock_views, MockServiceConfig, MockServiceView, PersistedView};

verus! {

broadcast use vstd::string::group_string_axioms;

/// Error of a mock service operation, with its API code, HTTP status and message.
#[derive(Debug)]
pub struct MockFacadeError {
    pub code: &'static str,
    pub status: u16,
    pub message: String,
}

/// The reserved prefix of the management API.
pub open spec fn admin_prefix() -> Seq<char> {
    "/admin/api"@
}

/// The enabled services of a list, in order.
pub open spec fn enabled_services(s: Seq<MockServiceView>) -> Seq<MockServiceView>
    decreases s.len(),
{
    if s.len() == 0 {
        s
    } else {
        let r = enabled_services(s.drop_last());
        if s.last().enabled {
            r.push(s.last())
        } else {
            r
        }
    }
}

/// What the caller does after [`MockManager::start`] accepted a service.
#[derive(Debug, Clone, Copy, PartialEq, Eq, Structural)]
pub enum MockStart {
    /// Served on the main port: already recorded as running on port 0.
    MainPort,
    /// Listen on this custom port, then record it with [`MockManager::record_started`].
    Bind(u16),
}

/// The configuration is refused: its base path lies under the management
/// API, or its custom port is the API port.
pub open spec fn refused(base_path: Seq<char>, custom_port: Option<u16>, api_port: u16) -> bool {
    has_prefix(base_path, admin_prefix()) || custom_port == Some(api_port)
}

/// The error of a refused configuration (base path checked first).
pub open spec fn refusal_is(e: MockFacadeError, base_path: Seq<char>, api_port: u16) -> bool {
    if has_prefix(base_path, admin_prefix()) {
        &&& e.code@ == "MOCK_BAD_BASEPATH"@
        &&& e.status == 400
        &&& e.message@ == "basePath 不能以 /admin/api 开头"@
    } else {
        &&& e.code@ == "MOCK_BAD_PORT"@
        &&& e.status == 400
        &&& e.message@ == "自定义端口不能与管理窗口端口相同"@
    }
}

/// Checks a configuration against the reserved prefix and the API port.
fn validate(cfg: &MockServiceConfig, api_port: u16) -> (r: Result<(), MockFacadeError>)
    ensures
        r is Ok <==> !refused(cfg.base_path@, cfg.custom_port, api_port),
        r matches Err(e) ==> refusal_is(e, cfg.base_path@, api_port),
{
    if starts_with(cfg.base_path.as_str(), "/admin/api") {
        return Err(MockFacadeError {
            code: "MOCK_BAD_BASEPATH",
            status: 400,
            message: "basePath 不能以 /admin/api 开头".to_owned(),
        });
    }
    match cfg.custom_port {
        Some(p) => {
            if p == api_port {
                return Err(MockFacadeError {
                    code: "MOCK_BAD_PORT",
                    status: 400,
                    message: "自定义端口不能与管理窗口端口相同".to_owned(),
                });
            }
        },
        None => {},
    }
    Ok(())
}

/// The error of a start that failed with `message`.
pub fn start_failure(message: String) -> (r: MockFacadeError)
    ensures
        r.code@ == "MOCK_START_FAIL"@,
        r.status == 500,
        r.message == message,
{
    MockFacadeError { code: "MOCK_START_FAIL", status: 500, message }
}

// ======================== main-port routing ========================

/// The base path of a main-port service without trailing `/`.
pub open spec fn main_base(s: MockServiceView) -> Seq<char> {
    trim_end_spec(s.base_path@, '/')
}

/// A main-port service serves `path`: it has no custom port, a non-empty
/// base outside the management API, and `path` is the base or lies under it.
pub open spec fn serves_path(s: MockServiceView, path: Seq<char>) -> bool {
    &&& s.custom_port is None
    &&& main_base(s).len() > 0
    &&& !has_prefix(main_base(s), admin_prefix())
    &&& (path == main_base(s) || has_prefix(path, main_base(s).push('/')))
}

/// The score of a serving service: the UTF-8 length of its base (the longest
/// base wins).
pub open spec fn score(s: MockServiceView) -> nat {
    vstd::utf8::encode_utf8(main_base(s)).len()
}

/// The configuration a running id stands for: the first service with that id.
pub open spec fn config_of(services: Seq<MockServiceView>, id: Seq<char>, j: int) -> bool {
    first_mock_at(services, id, j)
}

/// The services of the configuration with the first `k` handles that serve `path`.
pub open spec fn serving(
    services: Seq<MockServiceView>,
    handles: Seq<(String, u16)>,
    path: Seq<char>,
    h: int,
    j: int,
) -> bool {
    &&& 0 <= h < handles.len()
    &&& config_of(services, handles[h].0@, j)
    &&& serves_path(services[j], path)
}

/// Position of the first service with id `id`.
fn first_index_of_id(v: &Vec<MockServiceConfig>, id: &str) -> (r: Option<usize>)
    ensures
        match r {
            Some(i) => i < v@.len() && v@[i as int].id@ == id@ && forall|j: int| 0 <= j < i ==> v@[j].id@ != id@,
            None => forall|j: int| 0 <= j < v@.len() ==> v@[j].id@ != id@,
        },
{
    let mut i: usize = 0;
    while i < v.len()
        invariant
            i <= v@.len(),
            forall|j: int| 0 <= j < i ==> v@[j].id@ != id@,
        decreases v.len() - i,
    {
        if str_eq(v[i].id.as_str(), id) {
            return Some(i);
        }
        i += 1;
    }
    None
}

/// The running mock services.
pub struct MockManager {
    handles: Vec<(String, u16)>,
}

/// The running services after starting the enabled service `s` (see
/// [`MockManager::start`]): any earlier run of it is stopped; on the main
/// port it runs on port 0, while a custom-port service waits for its listener.
pub open spec fn started(ports: Map<Seq<char>, u16>, s: MockServiceView) -> Map<Seq<char>, u16> {
    match s.custom_port {
        None => ports.insert(s.id@, 0),
        Some(_) => ports.remove(s.id@),
    }
}

impl MockManager {
    /// Well-formed: one entry per running id.
    pub closed spec fn wf(&self) -> bool {
        distinct(self.handles@)
    }

    /// The running services: id to bound port (0 on the main port).
    pub closed spec fn ports(&self) -> Map<Seq<char>, u16> {
        entry_map(self.handles@)
    }

    /// The running entries in the order they were started.
    pub closed spec fn handle_seq(&self) -> Seq<(String, u16)> {
        self.handles@
    }

    /// Nothing running.
    pub fn new() -> (r: Self)
        ensures
            r.wf(),
            r.ports() == Map::<Seq<char>, u16>::empty(),
    {
        let r = MockManager { handles: Vec::new() };
        assert(r.ports() =~= Map::<Seq<char>, u16>::empty());
        r
    }

    /// Stops service `id`: it is no longer running; its port if it was.
    pub fn stop(&mut self, id: &str) -> (r: Option<u16>)
        requires
            old(self).wf(),
        ensures
            final(self).wf(),
            final(self).ports() == old(self).ports().remove(id@),
            match r {
                Some(p) => old(self).ports().contains_key(id@) && old(self).ports()[id@] == p,
                None => !old(self).ports().contains_key(id@),
            },
    {
        remove_key(&mut self.handles, id)
    }

    /// Stops service `id` (as [`MockManager::stop`]).
    pub fn stop_service(&mut self, id: &str) -> (r: Option<u16>)
        requires
            old(self).wf(),
        ensures
            final(self).wf(),
            final(self).ports() == old(self).ports().remove(id@),
            match r {
                Some(p) => old(self).ports().contains_key(id@) && old(self).ports()[id@] == p,
                None => !old(self).ports().contains_key(id@),
            },
    {
        self.stop(id)
    }

    /// Stops every running service: nothing runs afterwards; the stopped
    /// entries `(id, port)` in the order they were started.
    pub fn stop_all(&mut self) -> (r: Vec<(String, u16)>)
        requires
            old(self).wf(),
        ensures
            final(self).wf(),
            final(self).ports() == Map::<Seq<char>, u16>::empty(),
            r@ == old(self).handle_seq(),
    {
        let mut out: Vec<(String, u16)> = Vec::new();
        std::mem::swap(&mut out, &mut self.handles);
        assert(self.ports() =~= Map::<Seq<char>, u16>::empty());
        out
    }

    /// The services to start when the application starts: the enabled
    /// services of the store, in order.
    pub fn restore(&self, cfg_mgr: &ConfigManager) -> (r: Vec<MockServiceConfig>)
        ensures
            mock_views(r@) == enabled_services(cfg_mgr@.mock_services),
    {
        let all = cfg_mgr.get_mock_services();
        let mut out: Vec<MockServiceConfig> = Vec::new();
        let mut i: usize = 0;
        while i < all.len()
            invariant
                i <= all@.len(),
                mock_views(all@) == cfg_mgr@.mock_services,
                mock_views(out@) == enabled_services(mock_views(all@).take(i as int)),
            decreases all.len() - i,
        {
            proof {
                assert(mock_views(all@).take(i + 1).drop_last() =~= mock_views(all@).take(i as int));
            }
            if all[i].enabled {
                out.push(all[i].clone());
                proof {
                    assert(mock_views(out@) =~= enabled_services(mock_views(all@).take(i as int)).push(all@[i as int]@));
                }
            }
            i += 1;
        }
        proof {
            assert(mock_views(all@).take(all@.len() as int) =~= mock_views(all@));
        }
        out
    }

    /// Answers a request of the main port: the running main-port service
    /// that serves the path (see [`MockManager::select_main_port`]) answers
    /// it; `None` when no service serves the path.
    pub fn dispatch_main_port(
        &self,
        cfg_mgr: &ConfigManager,
        method: &str,
        full_path: &str,
        query: Option<&str>,
        headers: &[(String, String)],
        body: &[u8],
    ) -> (r: Option<MockResponse>)
        requires
            self.wf(),
        ensures
            r is None <==> forall|h: int, j: int| !serving(cfg_mgr@.mock_services, self.handle_seq(), full_path@, h, j),
            r matches Some(resp) ==> exists|h: int, j: int| {
                &&& serving(cfg_mgr@.mock_services, self.handle_seq(), full_path@, h, j)
                &&& forall|h2: int, j2: int| serving(cfg_mgr@.mock_services, self.handle_seq(), full_path@, h2, j2)
                    ==> score(cfg_mgr@.mock_services[j2]) <= score(cfg_mgr@.mock_services[j])
                &&& dispatched(resp, cfg_mgr@.mock_services[j], method@, full_path@, match query {
                    Some(t) => Some(t@),
                    None => None,
                }, headers@, body@)
            },
    {
        match self.select_main_port(cfg_mgr, full_path) {
            Some(c) => Some(service_dispatch(&c, method, full_path, query, headers, body)),
            None => None,
        }
    }

    /// Starts service `cfg`: refused when it is disabled; else any earlier
    /// run is stopped, and a main-port service is recorded on port 0 while a
    /// custom-port one is left for the caller to bind.
    pub fn start(&mut self, cfg: &MockServiceConfig) -> (r: Result<MockStart, String>)
        requires
            old(self).wf(),
        ensures
            final(self).wf(),
            !cfg.enabled ==> (r matches Err(m) && m@ == "服务未启用"@) && final(self).ports() == old(self).ports(),
            cfg.enabled ==> match cfg.custom_port {
                None => r == Ok::<MockStart, String>(MockStart::MainPort) && final(self).ports() == old(
                    self,
                ).ports().insert(cfg.id@, 0),
                Some(p) => r == Ok::<MockStart, String>(MockStart::Bind(p)) && final(self).ports() == old(
                    self,
                ).ports().remove(cfg.id@),
            },
    {
        if !cfg.enabled {
            return Err("服务未启用".to_owned());
        }
        let _ = self.stop(cfg.id.as_str());
        match cfg.custom_port {
            None => {
                let ghost before = self.ports();
                upsert(&mut self.handles, cfg.id.clone(), 0);
                assert(self.ports() =~= before.insert(cfg.id@, 0));
                Ok(MockStart::MainPort)
            },
            Some(p) => Ok(MockStart::Bind(p)),
        }
    }

    /// Records that service `id` listens on `port`.
    pub fn record_started(&mut self, id: String, port: u16)
        requires
            old(self).wf(),
        ensures
            final(self).wf(),
            final(self).ports() == old(self).ports().insert(id@, port),
    {
        upsert(&mut self.handles, id, port);
    }

    /// Adds a service: a missing id is generated; the configuration is
    /// refused when its base path lies under the management API or its
    /// custom port is the API port; else it is stamped (a missing creation
    /// time and the update time are set to now), appended to the store and
    /// returned; an enabled service is then started (see [`MockManager::start`];
    /// a custom-port one still waits for its listener).
    pub fn add_service(&mut self, cfg: MockServiceConfig, cfg_mgr: &mut ConfigManager, api_port: u16) -> (r: Result<MockServiceConfig, MockFacadeError>)
        requires
            old(self).wf(),
        ensures
            final(self).wf(),
            match r {
                Ok(s) => final(self).ports() == if s.enabled {
                    started(old(self).ports(), s@)
                } else {
                    old(self).ports()
                },
                Err(_) => final(self).ports() == old(self).ports(),
            },
            final(cfg_mgr).dir() == old(cfg_mgr).dir(),
            r is Ok <==> !refused(cfg.base_path@, cfg.custom_port, api_port),
            match r {
                Ok(s) => {
                    &&& s == (MockServiceConfig {
                        id: s.id,
                        created_at: s.created_at,
                        updated_at: s.updated_at,
                        ..cfg
                    })
                    &&& (if cfg.id@.len() == 0 { uuid_shaped(s.id@) } else { s.id == cfg.id })
                    &&& s.updated_at@.len() > 0
                    &&& (if cfg.created_at@.len() == 0 { s.created_at == s.updated_at } else { s.created_at == cfg.created_at })
                    &&& final(cfg_mgr)@ == (PersistedView {
                        mock_services: old(cfg_mgr)@.mock_services.push(s@),
                        exported_at: final(cfg_mgr)@.exported_at,
                        ..old(cfg_mgr)@
                    })
                    &&& final(cfg_mgr)@.exported_at@.len() > 0
                },
                Err(e) => refusal_is(e, cfg.base_path@, api_port) && final(cfg_mgr)@ == old(cfg_mgr)@,
            },
    {
        let mut cfg = cfg;
        if cfg.id.as_str().is_empty() {
            cfg.id = new_uuid();
        }
        match validate(&cfg, api_port) {
            Err(e) => return Err(e),
            Ok(()) => {},
        }
        let now = now_rfc3339();
        if cfg.created_at.as_str().is_empty() {
            cfg.created_at = now.clone();
        }
        cfg.updated_at = now;
        let mut list = cfg_mgr.get_mock_services();
        let ghost before = list@;
        list.push(cfg.clone());
        proof {
            assert(mock_views(list@) =~= mock_views(before).push(cfg@));
        }
        cfg_mgr.save_mock_services(list);
        if cfg.enabled {
            let _ = self.start(&cfg);
        }
        Ok(cfg)
    }

    /// Updates a service: refused as for [`MockManager::add_service`]; else
    /// restamped, stored in place of the first service with its id (or
    /// appended) and returned; its running instance is stopped, and started
    /// again when the service is enabled.
    pub fn update_service(&mut self, cfg: MockServiceConfig, cfg_mgr: &mut ConfigManager, api_port: u16) -> (r: Result<MockServiceConfig, MockFacadeError>)
        requires
            old(self).wf(),
        ensures
            final(self).wf(),
            match r {
                Ok(s) => final(self).ports() == if s.enabled {
                    started(old(self).ports(), s@)
                } else {
                    old(self).ports().remove(s.id@)
                },
                Err(_) => final(self).ports() == old(self).ports(),
            },
            final(cfg_mgr).dir() == old(cfg_mgr).dir(),
            r is Ok <==> !refused(cfg.base_path@, cfg.custom_port, api_port),
            match r {
                Ok(s) => {
                    &&& s == (MockServiceConfig { updated_at: s.updated_at, ..cfg })
                    &&& s.updated_at@.len() > 0
                    &&& final(cfg_mgr)@.exported_at@.len() > 0
                    &&& final(cfg_mgr)@ == (PersistedView {
                        mock_services: final(cfg_mgr)@.mock_services,
                        exported_at: final(cfg_mgr)@.exported_at,
                        ..old(cfg_mgr)@
                    })
                    &&& ((exists|i: int| first_mock_at(old(cfg_mgr)@.mock_services, cfg.id@, i)
                        && final(cfg_mgr)@.mock_services == old(cfg_mgr)@.mock_services.update(i, s@))
                        || ((forall|i: int| 0 <= i < old(cfg_mgr)@.mock_services.len()
                        ==> old(cfg_mgr)@.mock_services[i].id@ != cfg.id@)
                        && final(cfg_mgr)@.mock_services == old(cfg_mgr)@.mock_services.push(s@)))
                },
                Err(e) => refusal_is(e, cfg.base_path@, api_port) && final(cfg_mgr)@ == old(cfg_mgr)@,
            },
    {
        match validate(&cfg, api_port) {
            Err(e) => return Err(e),
            Ok(()) => {},
        }
        let mut cfg = cfg;
        cfg.updated_at = now_rfc3339();
        let mut list = cfg_mgr.get_mock_services();
        let ghost before = list@;
        match first_index_of_id(&list, cfg.id.as_str()) {
            Some(i) => {
                list.set(i, cfg.clone());
                proof {
                    assert(first_mock_at(mock_views(before), cfg.id@, i as int));
                    assert(mock_views(list@) =~= mock_views(before).update(i as int, cfg@));
                }
            },
            None => {
                list.push(cfg.clone());
                proof {
                    assert(mock_views(list@) =~= mock_views(before).push(cfg@));
                }
            },
        }
        cfg_mgr.save_mock_services(list);
        let _ = self.stop(cfg.id.as_str());
        if cfg.enabled {
            let _ = self.start(&cfg);
        }
        Ok(cfg)
    }

    /// Removes a service: it is stopped and every service with its id leaves
    /// the store; the port it ran on, if it ran.
    pub fn remove_service(&mut self, id: &str, cfg_mgr: &mut ConfigManager) -> (r: Option<u16>)
        requires
            old(self).wf(),
        ensures
            final(self).wf(),
            final(self).ports() == old(self).ports().remove(id@),
            final(cfg_mgr).dir() == old(cfg_mgr).dir(),
            final(cfg_mgr)@ == (PersistedView {
                mock_services: final(cfg_mgr)@.mock_services,
                exported_at: final(cfg_mgr)@.exported_at,
                ..old(cfg_mgr)@
            }),
            final(cfg_mgr)@.mock_services == without_mock(old(cfg_mgr)@.mock_services, id@),
    {
        let r = self.stop(id);
        let list = cfg_mgr.get_mock_services();
        let mut kept: Vec<MockServiceConfig> = Vec::new();
        let mut i: usize = 0;
        while i < list.len()
            invariant
                i <= list@.len(),
                mock_views(kept@) == without_mock(mock_views(list@).take(i as int), id@),
            decreases list.len() - i,
        {
            let ghost t1 = mock_views(list@).take(i + 1);
            proof {
                assert(t1.drop_last() =~= mock_views(list@).take(i as int));
                assert(t1.last() == list@[i as int]@);
            }
            if !str_eq(list[i].id.as_str(), id) {
                let ghost before = kept@;
                kept.push(list[i].clone());
                proof {
                    assert(mock_views(kept@) =~= mock_views(before).push(list@[i as int]@));
                }
            }
            i += 1;
        }
        proof {
            assert(mock_views(list@).take(list@.len() as int) =~= mock_views(list@));
        }
        cfg_mgr.save_mock_services(kept);
        r
    }

    /// Starts the stored service `id`: `MOCK_NOT_FOUND` when there is none;
    /// `MOCK_START_FAIL` when [`MockManager::start`] refuses it.
    pub fn start_service(&mut self, id: &str, cfg_mgr: &ConfigManager) -> (r: Result<MockStart, MockFacadeError>)
        requires
            old(self).wf(),
        ensures
            final(self).wf(),
            match r {
                Ok(MockStart::MainPort) => exists|j: int| {
                    &&& first_mock_at(cfg_mgr@.mock_services, id@, j)
                    &&& cfg_mgr@.mock_services[j].enabled
                    &&& cfg_mgr@.mock_services[j].custom_port is None
                    &&& final(self).ports() == old(self).ports().insert(id@, 0)
                },
                Ok(MockStart::Bind(p)) => exists|j: int| {
                    &&& first_mock_at(cfg_mgr@.mock_services, id@, j)
                    &&& cfg_mgr@.mock_services[j].enabled
                    &&& cfg_mgr@.mock_services[j].custom_port == Some(p)
                    &&& final(self).ports() == old(self).ports().remove(id@)
                },
                Err(e) => if e.code@ == "MOCK_NOT_FOUND"@ {
                    &&& e.status == 404
                    &&& e.message@ == "mock 服务不存在"@
                    &&& forall|j: int| 0 <= j < cfg_mgr@.mock_services.len() ==> cfg_mgr@.mock_services[j].id@ != id@
                    &&& final(self).ports() == old(self).ports()
                } else {
                    &&& e.code@ == "MOCK_START_FAIL"@
                    &&& e.status == 500
                    &&& e.message@ == "服务未启用"@
                    &&& exists|j: int| first_mock_at(cfg_mgr@.mock_services, id@, j) && !cfg_mgr@.mock_services[j].enabled
                    &&& final(self).ports() == old(self).ports()
                },
            },
    {
        let cfg = match cfg_mgr.get_mock_service_by_id(id) {
            Some(s) => s,
            None => {
                return Err(MockFacadeError {
                    code: "MOCK_NOT_FOUND",
                    status: 404,
                    message: "mock 服务不存在".to_owned(),
                });
            },
        };
        proof {
            reveal_strlit("MOCK_NOT_FOUND");
            reveal_strlit("MOCK_START_FAIL");
            assert("MOCK_NOT_FOUND"@ != "MOCK_START_FAIL"@) by {
                assert("MOCK_NOT_FOUND"@[5] != "MOCK_START_FAIL"@[5]);
            }
        }
        match self.start(&cfg) {
            Ok(m) => Ok(m),
            Err(e) => Err(start_failure(e)),
        }
    }

    /// The port service `id` runs on, if it runs.
    pub fn port_of(&self, id: &str) -> (r: Option<u16>)
        requires
            self.wf(),
        ensures
            match r {
                Some(p) => self.ports().contains_key(id@) && self.ports()[id@] == p,
                None => !self.ports().contains_key(id@),
            },
    {
        match get_value(&self.handles, id) {
            Some(p) => Some(*p),
            None => None,
        }
    }

    /// The ids of the running services, in the order they were started.
    pub fn running_ids(&self) -> (r: Vec<String>)
        ensures
            r@.len() == self.handle_seq().len(),
            forall|i: int| 0 <= i < r@.len() ==> #[trigger] r@[i]@ == self.handle_seq()[i].0@,
    {
        let mut out: Vec<String> = Vec::new();
        let mut i: usize = 0;
        while i < self.handles.len()
            invariant
                i <= self.handles@.len(),
                out@.len() == i,
                forall|j: int| 0 <= j < i ==> #[trigger] out@[j]@ == self.handles@[j].0@,
            decreases self.handles.len() - i,
        {
            out.push(self.handles[i].0.clone());
            i += 1;
        }
        out
    }

    /// The running main-port service that serves `full_path`: among the
    /// running services whose configuration serves the path, one with the
    /// longest base; `None` when none serves it.
    pub fn select_main_port(&self, cfg_mgr: &ConfigManager, full_path: &str) -> (r: Option<MockServiceConfig>)
        requires
            self.wf(),
        ensures
            match r {
                Some(c) => {
                    &&& exists|h: int, j: int| serving(cfg_mgr@.mock_services, self.handle_seq(), full_path@, h, j)
                        && c@ == cfg_mgr@.mock_services[j]
                    &&& forall|h: int, j: int| serving(cfg_mgr@.mock_services, self.handle_seq(), full_path@, h, j)
                        ==> score(cfg_mgr@.mock_services[j]) <= score(c@)
                },
                None => forall|h: int, j: int| !serving(cfg_mgr@.mock_services, self.handle_seq(), full_path@, h, j),
            },
    {
        let ghost svcs = cfg_mgr@.mock_services;
        let ghost hs = self.handles@;
        let mut best: Option<(MockServiceConfig, usize)> = None;
        let mut k: usize = 0;
        while k < self.handles.len()
            invariant
                k <= hs.len(),
                hs == self.handles@,
                svcs == cfg_mgr@.mock_services,
                match best {
                    Some(b) => {
                        &&& b.1 == score(b.0@)
                        &&& exists|h: int, j: int| h < k && serving(svcs, hs, full_path@, h, j) && b.0@ == svcs[j]
                        &&& forall|h: int, j: int| h < k && serving(svcs, hs, full_path@, h, j) ==> score(svcs[j]) <= b.1
                    },
                    None => forall|h: int, j: int| h < k ==> !serving(svcs, hs, full_path@, h, j),
                },
            decreases self.handles.len() - k,
        {
            let id = &self.handles[k].0;
            match cfg_mgr.get_mock_service_by_id(id.as_str()) {
                None => {
                    proof {
                        assert forall|j: int| !config_of(svcs, hs[k as int].0@, j) by {}
                    }
                },
                Some(cfg) => {
                    let ghost j0 = choose|j: int| first_mock_at(svcs, id@, j) && cfg@ == svcs[j];
                    proof {
                        assert forall|j: int| config_of(svcs, hs[k as int].0@, j) implies j == j0 by {
                            if j < j0 {
                                assert(svcs[j].id@ != id@);
                            } else if j > j0 {
                                assert(svcs[j0].id@ != id@);
                            }
                        }
                    }
                    let is_main = cfg.custom_port.is_none();
                    let base = trim_end(cfg.base_path.as_str(), '/');
                    let with_slash = concat(base.as_str(), "/");
                    proof {
                        reveal_strlit("/");
                        reveal_strlit("/admin/api");
                        assert(with_slash@ =~= base@.push('/'));
                    }
                    let serves = is_main && !base.as_str().is_empty() && !starts_with(base.as_str(), "/admin/api")
                        && (str_eq(full_path, base.as_str()) || starts_with(full_path, with_slash.as_str()));
                    proof {
                        assert(cfg@ == svcs[j0]);
                        assert(base@ == main_base(svcs[j0]));
                        assert(serves == serves_path(svcs[j0], full_path@));
                    }
                    if serves {
                        let s = base.as_str().as_bytes().len();
                        proof {
                            assert(s == score(svcs[j0]));
                            assert(serving(svcs, hs, full_path@, k as int, j0));
                        }
                        let better = match &best {
                            Some(b) => s > b.1,
                            None => true,
                        };
                        if better {
                            best = Some((cfg, s));
                        }
                    }
                },
            }
            proof {
                match &best {
                    Some(b) => {
                        assert forall|h: int, j: int| h < k + 1 && serving(svcs, hs, full_path@, h, j) implies score(svcs[j]) <= b.1 by {
                            if h == k {
                                assert(config_of(svcs, hs[k as int].0@, j));
                            }
                        }
                    },
                    None => {
                        assert forall|h: int, j: int| h < k + 1 implies !serving(svcs, hs, full_path@, h, j) by {
                            if h == k && serving(svcs, hs, full_path@, h, j) {
                                assert(config_of(svcs, hs[k as int].0@, j));
                            }
                        }
                    },
                }
            }
            k += 1;
        }
        proof {
            if let Some(b) = &best {
                let (h, j) = choose|h: int, j: int| h < k && serving(svcs, hs, full_path@, h, j) && b.0@ == svcs[j];
                assert(serving(cfg_mgr@.mock_services, self.handle_seq(), full_path@, h, j));
            }
        }
        match best {
            Some(b) => Some(b.0),
            None => None,
        }
    }
}

/// The services of `s` whose id is not `id`, in order.
pub open spec fn without_mock(s: Seq<MockServiceView>, id: Seq<char>) -> Seq<MockServiceView>
    decreases s.len(),
{
    if s.len() == 0 {
        s
    } else {
        let r = without_mock(s.drop_last(), id);
        if s.last().id@ == id {
            r
        } else {
            r.push(s.last())
        }
    }
}

// ======================== laws ========================

/// A refused configuration is refused with the base-path error first, and a
/// configuration under neither rule is accepted.
pub proof fn law_refusal_order(base_path: Seq<char>, custom_port: Option<u16>, api_port: u16)
    ensures
        has_prefix(base_path, admin_prefix()) ==> refused(base_path, custom_port, api_port),
        custom_port == Some(api_port) ==> refused(base_path, custom_port, api_port),
        !has_prefix(base_path, admin_prefix()) && custom_port != Some(api_port) ==> !refused(
            base_path,
            custom_port,
            api_port,
        ),
{
}

/// A service that serves a path never has a base under the management API,
/// and the path always begins with its base.
pub proof fn law_serving_paths(s: MockServiceView, path: Seq<char>)
    requires
        serves_path(s, path),
    ensures
        !has_prefix(main_base(s), admin_prefix()),
        has_prefix(path, main_base(s)),
{
    if path != main_base(s) {
        let b = main_base(s);
        assert(path.subrange(0, b.len() as int) =~= path.subrange(0, b.len() as int + 1).subrange(0, b.len() as int));
        assert(b.push('/').subrange(0, b.len() as int) =~= b);
    } else {
        assert(path.subrange(0, path.len() as int) =~= path);
    }
}

} // verus!
