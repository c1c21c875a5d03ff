//! The configuration store: the authoritative in-memory copy of the persisted
//! configuration, its readers, its writers and the defensive clamping of the
//! system settings. Writing it to disk is the caller's business.

use vstd::prelude::*;

use crate::clock::now_rfc3339;
use crate::constants::{
    LOG_RETENTION_MAX, LOG_RETENTION_MIN, MAX_CONNECTIONS_MAX, MAX_CONNECTIONS_MIN,
    PING_INTERVAL_MAX, PING_INTERVAL_MIN, PONG_TIMEOUT_MAX, PONG_TIMEOUT_MIN,
};
use crate::text::str_eq;
use crate::types::{
    clone_events, clone_mock_services, clone_scenes, clone_servers, EventConfig,
    MockServiceConfig, MockServiceView, PersistedConfig, PersistedView, SceneConfig, SceneView,
    ServerConfig, ServerConfigView, SystemSettings, SystemSettingsView, WindowConfig,
    server_views, mock_views, scene_views,
};

verus! {

// ======================== clamping ========================

/// `v` clamped into `[lo, hi]` (first raised to `lo`, then lowered to `hi`),
/// or `d` when `v` is zero (missing).
pub open spec fn clamp_spec(v: u64, d: u64, lo: u64, hi: u64) -> u64 {
    if v == 0 {
        d
    } else {
        let m = if v >= lo { v } else { lo };
        if m <= hi { m } else { hi }
    }
}

/// Numeric clamp: the default when `v` is zero (missing), else `v` limited to `[min, max]`.
pub fn clamp_or(v: u64, default: u64, min: u64, max: u64) -> (r: u64)
    ensures
        r == clamp_spec(v, default, min, max),
{
    if v == 0 {
        default
    } else {
        let m = if v >= min { v } else { min };
        if m <= max { m } else { max }
    }
}

/// The identifier the system settings take when they have none.
pub open spec fn system_id() -> Seq<char> {
    seq!['s', 'y', 's', 't', 'e', 'm']
}

/// `after` is `before` with its numbers clamped and an empty id replaced by
/// `system`; the other fields are kept, `updated_at` aside.
pub open spec fn settings_sanitized(before: SystemSettingsView, after: SystemSettingsView) -> bool {
    &&& after.id@ == (if before.id@.len() == 0 { system_id() } else { before.id@ })
    &&& after.heartbeat.enabled == before.heartbeat.enabled
    &&& after.heartbeat.ping_interval == clamp_spec(
        before.heartbeat.ping_interval,
        30_000,
        PING_INTERVAL_MIN,
        PING_INTERVAL_MAX,
    )
    &&& after.heartbeat.pong_timeout == clamp_spec(
        before.heartbeat.pong_timeout,
        90_000,
        PONG_TIMEOUT_MIN,
        PONG_TIMEOUT_MAX,
    )
    &&& after.log_retention_days == clamp_spec(
        before.log_retention_days,
        7,
        LOG_RETENTION_MIN,
        LOG_RETENTION_MAX,
    )
    &&& after.max_connections_per_server == clamp_spec(
        before.max_connections_per_server,
        1_000,
        MAX_CONNECTIONS_MIN,
        MAX_CONNECTIONS_MAX,
    )
    &&& after.wss == before.wss
    &&& after.ip_access == before.ip_access
    &&& after.auto_start == before.auto_start
    &&& after.start_minimized == before.start_minimized
}

fn system_id_string() -> (r: String)
    ensures
        r@ == system_id(),
{
    proof {
        reveal_strlit("system");
    }
    "system".to_owned()
}

/// Clamps the numbers of `s` and gives it the id `system` when it has none.
fn sanitize_settings(s: &mut SystemSettings)
    ensures
        settings_sanitized(old(s)@, final(s)@),
        final(s).updated_at == old(s).updated_at,
{
    if s.id.as_str().is_empty() {
        s.id = system_id_string();
    }
    s.heartbeat.ping_interval = clamp_or(
        s.heartbeat.ping_interval,
        30_000,
        PING_INTERVAL_MIN,
        PING_INTERVAL_MAX,
    );
    s.heartbeat.pong_timeout = clamp_or(
        s.heartbeat.pong_timeout,
        90_000,
        PONG_TIMEOUT_MIN,
        PONG_TIMEOUT_MAX,
    );
    s.log_retention_days = clamp_or(s.log_retention_days, 7, LOG_RETENTION_MIN, LOG_RETENTION_MAX);
    s.max_connections_per_server = clamp_or(
        s.max_connections_per_server,
        1_000,
        MAX_CONNECTIONS_MIN,
        MAX_CONNECTIONS_MAX,
    );
}

/// Defensive repair of a loaded configuration: the system settings get an id
/// and numbers in range; everything else is kept.
pub fn sanitize_in_place(p: &mut PersistedConfig)
    ensures
        settings_sanitized(old(p)@.system_settings, final(p)@.system_settings),
        final(p)@.system_settings.updated_at == old(p)@.system_settings.updated_at,
        final(p)@.servers == old(p)@.servers,
        final(p)@.events == old(p)@.events,
        final(p)@.mock_services == old(p)@.mock_services,
        final(p)@.scenes == old(p)@.scenes,
        final(p)@.window_config == old(p)@.window_config,
        final(p)@.version == old(p)@.version,
        final(p)@.exported_at == old(p)@.exported_at,
{
    sanitize_settings(&mut p.system_settings);
}

// ======================== lookups ========================

/// `i` is the first position of a service with id `id`.
pub open spec fn first_server_at(s: Seq<ServerConfigView>, id: Seq<char>, i: int) -> bool {
    &&& 0 <= i < s.len()
    &&& s[i].id@ == id
    &&& forall|j: int| 0 <= j < i ==> s[j].id@ != id
}

/// `i` is the first position of a mock service with id `id`.
pub open spec fn first_mock_at(s: Seq<MockServiceView>, id: Seq<char>, i: int) -> bool {
    &&& 0 <= i < s.len()
    &&& s[i].id@ == id
    &&& forall|j: int| 0 <= j < i ==> s[j].id@ != id
}

/// `i` is the first position of a scene with id `id`.
pub open spec fn first_scene_at(s: Seq<SceneView>, id: Seq<char>, i: int) -> bool {
    &&& 0 <= i < s.len()
    &&& s[i].id@ == id
    &&& forall|j: int| 0 <= j < i ==> s[j].id@ != id
}

// ======================== the store ========================

/// The configuration store.
pub struct ConfigManager {
    config_dir: String,
    data: PersistedConfig,
}

impl View for ConfigManager {
    type V = PersistedView;

    closed spec fn view(&self) -> PersistedView {
        self.data@
    }
}

impl ConfigManager {
    /// The directory the configuration lives in.
    pub closed spec fn dir(&self) -> Seq<char> {
        self.config_dir@
    }

    /// A store over `config_dir` holding the default configuration.
    pub fn new(config_dir: String) -> (r: Self)
        ensures
            r.dir() == config_dir@,
            r@.servers.len() == 0,
            r@.events.len() == 0,
            r@.mock_services.len() == 0,
            r@.scenes.len() == 0,
            r@.system_settings.id@.len() == 0,
            r@.window_config == (WindowConfig { width: 1280, height: 800, x: None, y: None, maximized: false }),
            r@.version@ == seq!['1', '.', '1', '.', '0'],
            r@.exported_at@.len() == 0,
    {
        ConfigManager { config_dir, data: PersistedConfig::default() }
    }

    /// The directory the configuration lives in.
    pub fn config_dir(&self) -> (r: &String)
        ensures
            r@ == self.dir(),
    {
        &self.config_dir
    }

    /// Takes in what was loaded from storage: repaired by [`sanitize_in_place`]
    /// it becomes the authoritative copy. `None` (loading failed) keeps the
    /// current configuration.
    pub fn init(&mut self, loaded: Option<PersistedConfig>)
        ensures
            final(self).dir() == old(self).dir(),
            match loaded {
                Some(c) => {
                    &&& settings_sanitized(c@.system_settings, final(self)@.system_settings)
                    &&& final(self)@.system_settings.updated_at == c@.system_settings.updated_at
                    &&& final(self)@.servers == c@.servers
                    &&& final(self)@.events == c@.events
                    &&& final(self)@.mock_services == c@.mock_services
                    &&& final(self)@.scenes == c@.scenes
                    &&& final(self)@.window_config == c@.window_config
                    &&& final(self)@.version == c@.version
                    &&& final(self)@.exported_at == c@.exported_at
                },
                None => final(self)@ == old(self)@,
            },
    {
        if let Some(mut c) = loaded {
            sanitize_in_place(&mut c);
            self.data = c;
        }
    }

    // ==================== readers ====================

    /// All services, in order.
    pub fn get_servers(&self) -> (r: Vec<ServerConfig>)
        ensures
            server_views(r@) == self@.servers,
    {
        clone_servers(&self.data.servers)
    }

    /// The first service with id `id`.
    pub fn get_server_by_id(&self, id: &str) -> (r: Option<ServerConfig>)
        ensures
            match r {
                Some(s) => exists|i: int| first_server_at(self@.servers, id@, i) && s@ == self@.servers[i],
                None => forall|i: int| 0 <= i < self@.servers.len() ==> self@.servers[i].id@ != id@,
            },
    {
        let v = &self.data.servers;
        let mut i: usize = 0;
        while i < v.len()
            invariant
                i <= v@.len(),
                server_views(v@) == self@.servers,
                forall|j: int| 0 <= j < i ==> v@[j].id@ != id@,
            decreases v.len() - i,
        {
            if str_eq(v[i].id.as_str(), id) {
                let s = v[i].clone();
                assert(first_server_at(self@.servers, id@, i as int));
                return Some(s);
            }
            i += 1;
        }
        None
    }

    /// All events, in order.
    pub fn get_events(&self) -> (r: Vec<EventConfig>)
        ensures
            r@ == self@.events,
    {
        clone_events(&self.data.events)
    }

    /// The system settings.
    pub fn get_system_settings(&self) -> (r: SystemSettings)
        ensures
            r@ == self@.system_settings,
    {
        self.data.system_settings.clone()
    }

    /// The window geometry.
    pub fn get_window_config(&self) -> (r: WindowConfig)
        ensures
            r == self@.window_config,
    {
        self.data.window_config
    }

    /// All mock services, in order.
    pub fn get_mock_services(&self) -> (r: Vec<MockServiceConfig>)
        ensures
            mock_views(r@) == self@.mock_services,
    {
        clone_mock_services(&self.data.mock_services)
    }

    /// The first mock service with id `id`.
    pub fn get_mock_service_by_id(&self, id: &str) -> (r: Option<MockServiceConfig>)
        ensures
            match r {
                Some(s) => exists|i: int| first_mock_at(self@.mock_services, id@, i) && s@ == self@.mock_services[i],
                None => forall|i: int| 0 <= i < self@.mock_services.len() ==> self@.mock_services[i].id@ != id@,
            },
    {
        let v = &self.data.mock_services;
        let mut i: usize = 0;
        while i < v.len()
            invariant
                i <= v@.len(),
                mock_views(v@) == self@.mock_services,
                forall|j: int| 0 <= j < i ==> v@[j].id@ != id@,
            decreases v.len() - i,
        {
            if str_eq(v[i].id.as_str(), id) {
                let s = v[i].clone();
                assert(first_mock_at(self@.mock_services, id@, i as int));
                return Some(s);
            }
            i += 1;
        }
        None
    }

    /// All scenes, in order.
    pub fn get_scenes(&self) -> (r: Vec<SceneConfig>)
        ensures
            scene_views(r@) == self@.scenes,
    {
        clone_scenes(&self.data.scenes)
    }

    /// The first scene with id `id`.
    pub fn get_scene_by_id(&self, id: &str) -> (r: Option<SceneConfig>)
        ensures
            match r {
                Some(s) => exists|i: int| first_scene_at(self@.scenes, id@, i) && s@ == self@.scenes[i],
                None => forall|i: int| 0 <= i < self@.scenes.len() ==> self@.scenes[i].id@ != id@,
            },
    {
        let v = &self.data.scenes;
        let mut i: usize = 0;
        while i < v.len()
            invariant
                i <= v@.len(),
                scene_views(v@) == self@.scenes,
                forall|j: int| 0 <= j < i ==> v@[j].id@ != id@,
            decreases v.len() - i,
        {
            if str_eq(v[i].id.as_str(), id) {
                let s = v[i].clone();
                assert(first_scene_at(self@.scenes, id@, i as int));
                return Some(s);
            }
            i += 1;
        }
        None
    }

    /// A copy of the whole configuration.
    pub fn export_all(&self) -> (r: PersistedConfig)
        ensures
            r@ == self@,
    {
        self.data.clone()
    }

    // ==================== writers ====================

    /// Replaces the service list.
    pub fn save_servers(&mut self, servers: Vec<ServerConfig>)
        ensures
            final(self).dir() == old(self).dir(),
            final(self)@ == (PersistedView {
                servers: server_views(servers@),
                exported_at: final(self)@.exported_at,
                ..old(self)@
            }),
            final(self)@.exported_at@.len() > 0,
    {
        self.data.servers = servers;
        self.data.exported_at = now_rfc3339();
    }

    /// Replaces the event list.
    pub fn save_events(&mut self, events: Vec<EventConfig>)
        ensures
            final(self).dir() == old(self).dir(),
            final(self)@ == (PersistedView {
                events: events@,
                exported_at: final(self)@.exported_at,
                ..old(self)@
            }),
            final(self)@.exported_at@.len() > 0,
    {
        self.data.events = events;
        self.data.exported_at = now_rfc3339();
    }

    /// Replaces the mock service list.
    pub fn save_mock_services(&mut self, list: Vec<MockServiceConfig>)
        ensures
            final(self).dir() == old(self).dir(),
            final(self)@ == (PersistedView {
                mock_services: mock_views(list@),
                exported_at: final(self)@.exported_at,
                ..old(self)@
            }),
            final(self)@.exported_at@.len() > 0,
    {
        self.data.mock_services = list;
        self.data.exported_at = now_rfc3339();
    }

    /// Replaces the scene list.
    pub fn save_scenes(&mut self, list: Vec<SceneConfig>)
        ensures
            final(self).dir() == old(self).dir(),
            final(self)@ == (PersistedView {
                scenes: scene_views(list@),
                exported_at: final(self)@.exported_at,
                ..old(self)@
            }),
            final(self)@.exported_at@.len() > 0,
    {
        self.data.scenes = list;
        self.data.exported_at = now_rfc3339();
    }

    /// Replaces the system settings, clamped, with an id and restamped.
    pub fn save_system_settings(&mut self, settings: SystemSettings)
        ensures
            final(self).dir() == old(self).dir(),
            settings_sanitized(settings@, final(self)@.system_settings),
            final(self)@.system_settings.updated_at@.len() > 0,
            final(self)@ == (PersistedView {
                system_settings: final(self)@.system_settings,
                exported_at: final(self)@.exported_at,
                ..old(self)@
            }),
            final(self)@.exported_at@.len() > 0,
    {
        let mut settings = settings;
        sanitize_settings(&mut settings);
        settings.updated_at = now_rfc3339();
        self.data.system_settings = settings;
        self.data.exported_at = now_rfc3339();
    }

    /// Replaces the window geometry.
    pub fn save_window_config(&mut self, config: WindowConfig)
        ensures
            final(self).dir() == old(self).dir(),
            final(self)@ == (PersistedView {
                window_config: config,
                exported_at: final(self)@.exported_at,
                ..old(self)@
            }),
            final(self)@.exported_at@.len() > 0,
    {
        self.data.window_config = config;
        self.data.exported_at = now_rfc3339();
    }

    /// Replaces everything but the export stamp, which is renewed.
    pub fn import_all(&mut self, config: PersistedConfig)
        ensures
            final(self).dir() == old(self).dir(),
            final(self)@ == (PersistedView { exported_at: final(self)@.exported_at, ..config@ }),
            final(self)@.exported_at@.len() > 0,
    {
        let mut config = config;
        config.exported_at = now_rfc3339();
        self.data = config;
    }
}

// ======================== laws ========================

/// Reading back a service list that was just saved finds, for every id, the
/// first saved service with that id; with distinct ids that is the one at its
/// own position.
pub proof fn law_saved_server_found(s: Seq<ServerConfigView>, i: int)
    requires
        0 <= i < s.len(),
        forall|a: int, b: int| 0 <= a < s.len() && 0 <= b < s.len() && a != b ==> s[a].id@ != s[b].id@,
    ensures
        first_server_at(s, s[i].id@, i),
{
}

/// Clamping lands in `[lo, hi]` whenever `lo <= hi` and the default does.
pub proof fn law_clamp_in_range(v: u64, d: u64, lo: u64, hi: u64)
    requires
        lo <= hi,
        lo <= d <= hi,
    ensures
        lo <= clamp_spec(v, d, lo, hi) <= hi,
        v != 0 && lo <= v <= hi ==> clamp_spec(v, d, lo, hi) == v,
{
}

/// Sanitizing is idempotent: sanitized settings are left as they are.
pub proof fn law_sanitize_idempotent(a: SystemSettingsView, b: SystemSettingsView, c: SystemSettingsView)
    requires
        settings_sanitized(a, b),
        settings_sanitized(b, c),
    ensures
        c.id@ == b.id@,
        c.heartbeat == b.heartbeat,
        c.log_retention_days == b.log_retention_days,
        c.max_connections_per_server == b.max_connections_per_server,
{
}

/// Importing what was exported restores the whole configuration; only the
/// time of the last change moves.
pub proof fn law_export_import_roundtrip(before: PersistedView, exported: PersistedView, after: PersistedView)
    requires
        exported == before,
        after == (PersistedView { exported_at: after.exported_at, ..exported }),
    ensures
        after == (PersistedView { exported_at: after.exported_at, ..before }),
        after.servers == before.servers && after.events == before.events && after.mock_services
            == before.mock_services && after.scenes == before.scenes,
{
}

} // verus!
