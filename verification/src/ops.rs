//! The management operations behind the REST API: reply envelopes, and the
//! steps each request takes on the configuration store and the runtime
//! bookkeeping (request decoding and transport work happen outside).

use vstd::prelude::*;
use vstd::string::StringSliceAdditionalSpecFns;

use crate::clients::sep;
use crate::clock::{new_uuid, now_rfc3339, uuid_shaped};
use crate::config::{first_scene_at, first_server_at, ConfigManager};
use crate::constants::CLIENT_ID_SEP;
use crate::http_routing::{json_reprint, json_string, json_string_text, reprint_json};
use crate::services::ServiceManager;
use crate::text::{chars_of, contains_sub, find, first_occurrence_at, lemma_first_occurrence_unique, str_eq, string_from_range};
use crate::types::{
    fresh_runtime, level_name, scene_views, server_views, ApiResponse, EventConfig, EventStatus,
    LogLevel, PersistedView, SceneConfig, SceneServerResult, SceneView, ServerConfig,
    ServerConfigView,
};

verus! {

broadcast use vstd::string::group_string_axioms;

// ======================== replies ========================

/// An API error: code, message and HTTP status.
#[derive(Debug)]
pub struct ApiError {
    pub code: &'static str,
    pub message: String,
    pub status: u16,
}

/// The HTTP status sent for `status`: itself when it is a valid status code
/// (100 to 999), else 500.
pub open spec fn sent_status(status: u16) -> u16 {
    if 100 <= status <= 999 {
        status
    } else {
        500
    }
}

/// The HTTP status sent for `status` (see [`sent_status`]).
pub fn http_status(status: u16) -> (r: u16)
    ensures
        r == sent_status(status),
{
    if 100 <= status && status <= 999 {
        status
    } else {
        500
    }
}

/// A success reply carrying `data`.
pub fn ok<T>(data: T) -> (r: (u16, ApiResponse<T>))
    ensures
        r.0 == 200,
        r.1.success,
        r.1.data == Some(data),
        r.1.error_code is None,
        r.1.error is None,
        r.1.message is None,
        r.1.timestamp@.len() > 0,
{
    (200, ApiResponse::success(data, None))
}

/// A success reply carrying `data` and a message.
pub fn ok_msg<T>(data: T, msg: &str) -> (r: (u16, ApiResponse<T>))
    ensures
        r.0 == 200,
        r.1.success,
        r.1.data == Some(data),
        r.1.error_code is None,
        r.1.error is None,
        r.1.message matches Some(m) && m@ == msg@,
        r.1.timestamp@.len() > 0,
{
    (200, ApiResponse::success(data, Some(msg.to_owned())))
}

/// A success reply with only a message.
pub fn ok_msg_only<T>(msg: &str) -> (r: (u16, ApiResponse<T>))
    ensures
        r.0 == 200,
        r.1.success,
        r.1.data is None,
        r.1.error_code is None,
        r.1.error is None,
        r.1.message matches Some(m) && m@ == msg@,
        r.1.timestamp@.len() > 0,
{
    let r = ApiResponse {
        success: true,
        data: None,
        error_code: None,
        error: None,
        message: Some(msg.to_owned()),
        timestamp: now_rfc3339(),
    };
    (200, r)
}

/// A failure reply with an error code, a message and a status.
pub fn err<T>(code: &str, msg: String, status: u16) -> (r: (u16, ApiResponse<T>))
    ensures
        r.0 == sent_status(status),
        !r.1.success,
        r.1.data is None,
        r.1.error_code matches Some(c) && c@ == code@,
        r.1.error == Some(msg),
        r.1.message is None,
        r.1.timestamp@.len() > 0,
{
    let r = ApiResponse {
        success: false,
        data: None,
        error_code: Some(code.to_owned()),
        error: Some(msg),
        message: None,
        timestamp: now_rfc3339(),
    };
    (http_status(status), r)
}

/// The reply of an [`ApiError`].
pub fn error_reply<T>(e: ApiError) -> (r: (u16, ApiResponse<T>))
    ensures
        r.0 == sent_status(e.status),
        !r.1.success,
        r.1.error_code matches Some(c) && c@ == e.code@,
        r.1.error == Some(e.message),
{
    err(e.code, e.message, e.status)
}

/// Position of the first service with id `id`.
fn first_server_index(v: &Vec<ServerConfig>, id: &str) -> (r: Option<usize>)
    ensures
        match r {
            Some(i) => i < v@.len() && v@[i as int].id@ == id@ && forall|j: int| 0 <= j < i ==> v@[j].id@ != id@,
            None => forall|j: int| 0 <= j < v@.len() ==> v@[j].id@ != id@,
        },
{
    let mut i: usize = 0;
    while i < v.len()
        invariant
            i <= v@.len(),
            forall|j: int| 0 <= j < i ==> v@[j].id@ != id@,
        decreases v.len() - i,
    {
        if str_eq(v[i].id.as_str(), id) {
            return Some(i);
        }
        i += 1;
    }
    None
}

/// Position of the first scene with id `id`.
fn first_scene_index(v: &Vec<SceneConfig>, id: &str) -> (r: Option<usize>)
    ensures
        match r {
            Some(i) => i < v@.len() && v@[i as int].id@ == id@ && forall|j: int| 0 <= j < i ==> v@[j].id@ != id@,
            None => forall|j: int| 0 <= j < v@.len() ==> v@[j].id@ != id@,
        },
{
    let mut i: usize = 0;
    while i < v.len()
        invariant
            i <= v@.len(),
            forall|j: int| 0 <= j < i ==> v@[j].id@ != id@,
        decreases v.len() - i,
    {
        if str_eq(v[i].id.as_str(), id) {
            return Some(i);
        }
        i += 1;
    }
    None
}

// ======================== services ========================

/// The services of `s` whose id is not `id`, in order.
pub open spec fn without_server(s: Seq<ServerConfigView>, id: Seq<char>) -> Seq<ServerConfigView>
    decreases s.len(),
{
    if s.len() == 0 {
        s
    } else {
        let r = without_server(s.drop_last(), id);
        if s.last().id@ == id {
            r
        } else {
            r.push(s.last())
        }
    }
}

/// Adds a service: a missing id and missing timestamps are filled in, a
/// fresh runtime is registered and the service is appended to the store.
pub fn add_server(config: &mut ConfigManager, services: &mut ServiceManager, body: ServerConfig) -> (r: ServerConfig)
    requires
        old(services).wf(),
    ensures
        final(services).wf(),
        r@ == (ServerConfigView { id: r.id, created_at: r.created_at, updated_at: r.updated_at, ..body@ }),
        if body.id@.len() == 0 { uuid_shaped(r.id@) } else { r.id == body.id },
        if body.created_at@.len() == 0 { r.created_at@.len() > 0 } else { r.created_at == body.created_at },
        if body.updated_at@.len() == 0 { r.updated_at@.len() > 0 } else { r.updated_at == body.updated_at },
        final(services).running() == old(services).running(),
        final(services).rt() == old(services).rt().insert(r.id@, final(services).rt()[r.id@]),
        fresh_runtime(final(services).rt()[r.id@], r.id@),
        final(config).dir() == old(config).dir(),
        final(config)@ == (PersistedView {
            servers: old(config)@.servers.push(r@),
            exported_at: final(config)@.exported_at,
            ..old(config)@
        }),
{
    let mut body = body;
    if body.id.as_str().is_empty() {
        body.id = new_uuid();
    }
    if body.created_at.as_str().is_empty() {
        body.created_at = now_rfc3339();
    }
    if body.updated_at.as_str().is_empty() {
        body.updated_at = now_rfc3339();
    }
    services.register_server(body.clone());
    let mut servers = config.get_servers();
    let ghost before = servers@;
    servers.push(body.clone());
    proof {
        assert(server_views(servers@) =~= server_views(before).push(body@));
    }
    config.save_servers(servers);
    body
}

/// Replaces the service with the id of `body` (or appends it), registering a
/// fresh runtime for it; the previous configuration, if there was one.
pub fn update_server(config: &mut ConfigManager, services: &mut ServiceManager, body: ServerConfig) -> (r: Option<ServerConfig>)
    requires
        old(services).wf(),
    ensures
        final(services).wf(),
        final(services).running() == old(services).running(),
        final(services).rt() == old(services).rt().insert(body.id@, final(services).rt()[body.id@]),
        fresh_runtime(final(services).rt()[body.id@], body.id@),
        final(config).dir() == old(config).dir(),
        final(config)@ == (PersistedView {
            servers: final(config)@.servers,
            exported_at: final(config)@.exported_at,
            ..old(config)@
        }),
        match r {
            Some(prev) => exists|i: int| {
                &&& first_server_at(old(config)@.servers, body.id@, i)
                &&& prev@ == old(config)@.servers[i]
                &&& final(config)@.servers == old(config)@.servers.update(i, body@)
            },
            None => {
                &&& forall|i: int| 0 <= i < old(config)@.servers.len() ==> old(config)@.servers[i].id@ != body.id@
                &&& final(config)@.servers == old(config)@.servers.push(body@)
            },
        },
{
    let prev = config.get_server_by_id(body.id.as_str());
    services.register_server(body.clone());
    let mut servers = config.get_servers();
    let ghost before = servers@;
    let pos = first_server_index(&servers, body.id.as_str());
    match pos {
        Some(p) => {
            servers.set(p, body.clone());
            proof {
                assert(first_server_at(server_views(before), body.id@, p as int));
                assert(server_views(servers@) =~= server_views(before).update(p as int, body@));
            }
        },
        None => {
            servers.push(body.clone());
            proof {
                assert(server_views(servers@) =~= server_views(before).push(body@));
            }
        },
    }
    config.save_servers(servers);
    prev
}

/// Removes service `id`: refused with `SERVER_RUNNING` while it has a live
/// transport; else its runtime is dropped and every service with that id
/// leaves the store.
pub fn remove_server(config: &mut ConfigManager, services: &mut ServiceManager, id: &str) -> (r: Result<(), ApiError>)
    requires
        old(services).wf(),
    ensures
        final(services).wf(),
        final(config).dir() == old(config).dir(),
        final(services).running() == old(services).running(),
        r is Ok <==> !old(services).running().contains(id@),
        match r {
            Ok(_) => {
                &&& final(services).rt() == old(services).rt().remove(id@)
                &&& final(config)@ == (PersistedView {
                    servers: without_server(old(config)@.servers, id@),
                    exported_at: final(config)@.exported_at,
                    ..old(config)@
                })
            },
            Err(e) => {
                &&& e.code@ == "SERVER_RUNNING"@
                &&& e.message@ == "服务正在运行，无法删除"@
                &&& e.status == 400
                &&& final(services).rt() == old(services).rt()
                &&& final(config)@ == old(config)@
            },
        },
{
    if !services.remove_server(id) {
        return Err(ApiError { code: "SERVER_RUNNING", message: "服务正在运行，无法删除".to_owned(), status: 400 });
    }
    let list = config.get_servers();
    let mut kept: Vec<ServerConfig> = Vec::new();
    let mut i: usize = 0;
    while i < list.len()
        invariant
            i <= list@.len(),
            server_views(kept@) == without_server(server_views(list@).take(i as int), id@),
        decreases list.len() - i,
    {
        let ghost t1 = server_views(list@).take(i + 1);
        proof {
            assert(t1.drop_last() =~= server_views(list@).take(i as int));
            assert(t1.last() == list@[i as int]@);
        }
        if !str_eq(list[i].id.as_str(), id) {
            let ghost before = kept@;
            kept.push(list[i].clone());
            proof {
                assert(server_views(kept@) =~= server_views(before).push(list@[i as int]@));
            }
        }
        i += 1;
    }
    proof {
        assert(server_views(list@).take(list@.len() as int) =~= server_views(list@));
    }
    config.save_servers(kept);
    Ok(())
}

// ======================== events ========================

/// The status a toggle request names: `enabled`, anything else disables.
pub fn parse_event_status(s: &str) -> (r: EventStatus)
    ensures
        r == (if s@ == "enabled"@ { EventStatus::Enabled } else { EventStatus::Disabled }),
{
    if str_eq(s, "enabled") {
        EventStatus::Enabled
    } else {
        EventStatus::Disabled
    }
}

/// The events of `s` that belong to service `sid`, in order.
pub open spec fn events_of(s: Seq<EventConfig>, sid: Seq<char>) -> Seq<EventConfig>
    decreases s.len(),
{
    if s.len() == 0 {
        s
    } else {
        let r = events_of(s.drop_last(), sid);
        if s.last().server_id@ == sid {
            r.push(s.last())
        } else {
            r
        }
    }
}

/// The events of service `sid`, or all of them for `None`.
pub fn events_of_server(events: Vec<EventConfig>, sid: Option<&str>) -> (r: Vec<EventConfig>)
    ensures
        r@ == match sid {
            Some(s) => events_of(events@, s@),
            None => events@,
        },
{
    match sid {
        None => events,
        Some(s) => {
            let mut out: Vec<EventConfig> = Vec::new();
            let mut i: usize = 0;
            while i < events.len()
                invariant
                    i <= events@.len(),
                    out@ == events_of(events@.take(i as int), s@),
                decreases events.len() - i,
            {
                proof {
                    assert(events@.take(i + 1).drop_last() =~= events@.take(i as int));
                    assert(events@.take(i + 1).last() == events@[i as int]);
                }
                if str_eq(events[i].server_id.as_str(), s) {
                    out.push(events[i].clone());
                }
                i += 1;
            }
            proof {
                assert(events@.take(events@.len() as int) =~= events@);
            }
            out
        },
    }
}

// ======================== scenes ========================

/// The scenes of `s` whose id is not `id`, in order.
pub open spec fn without_scene(s: Seq<SceneView>, id: Seq<char>) -> Seq<SceneView>
    decreases s.len(),
{
    if s.len() == 0 {
        s
    } else {
        let r = without_scene(s.drop_last(), id);
        if s.last().id@ == id {
            r
        } else {
            r.push(s.last())
        }
    }
}

/// Adds a scene: a missing id is generated, a missing creation time and the
/// update time are set to now, and the scene is appended to the store.
pub fn add_scene(config: &mut ConfigManager, body: SceneConfig) -> (r: SceneConfig)
    ensures
        r@ == (SceneView { id: r.id, created_at: r.created_at, updated_at: r.updated_at, ..body@ }),
        if body.id@.len() == 0 { uuid_shaped(r.id@) } else { r.id == body.id },
        r.updated_at@.len() > 0,
        if body.created_at@.len() == 0 { r.created_at == r.updated_at } else { r.created_at == body.created_at },
        final(config).dir() == old(config).dir(),
        final(config)@ == (PersistedView {
            scenes: old(config)@.scenes.push(r@),
            exported_at: final(config)@.exported_at,
            ..old(config)@
        }),
{
    let mut body = body;
    if body.id.as_str().is_empty() {
        body.id = new_uuid();
    }
    let now = now_rfc3339();
    if body.created_at.as_str().is_empty() {
        body.created_at = now.clone();
    }
    body.updated_at = now;
    let mut scenes = config.get_scenes();
    let ghost before = scenes@;
    scenes.push(body.clone());
    proof {
        assert(scene_views(scenes@) =~= scene_views(before).push(body@));
    }
    config.save_scenes(scenes);
    body
}

/// Updates a scene in place of the first scene with its id, restamped;
/// `SCENE_NOT_FOUND` (and nothing changed) when there is none.
pub fn update_scene(config: &mut ConfigManager, body: SceneConfig) -> (r: Result<SceneConfig, ApiError>)
    ensures
        final(config).dir() == old(config).dir(),
        match r {
            Ok(s) => exists|i: int| {
                &&& first_scene_at(old(config)@.scenes, body.id@, i)
                &&& s@ == (SceneView { updated_at: s.updated_at, ..body@ })
                &&& s.updated_at@.len() > 0
                &&& final(config)@ == (PersistedView {
                    scenes: old(config)@.scenes.update(i, s@),
                    exported_at: final(config)@.exported_at,
                    ..old(config)@
                })
            },
            Err(e) => {
                &&& e.code@ == "SCENE_NOT_FOUND"@
                &&& e.message@ == "场景不存在"@
                &&& e.status == 404
                &&& forall|i: int| 0 <= i < old(config)@.scenes.len() ==> old(config)@.scenes[i].id@ != body.id@
                &&& final(config)@ == old(config)@
            },
        },
{
    let mut body = body;
    body.updated_at = now_rfc3339();
    let mut scenes = config.get_scenes();
    let ghost before = scenes@;
    let pos = first_scene_index(&scenes, body.id.as_str());
    match pos {
        Some(p) => {
            scenes.set(p, body.clone());
            proof {
                assert(first_scene_at(scene_views(before), body.id@, p as int));
                assert(scene_views(scenes@) =~= scene_views(before).update(p as int, body@));
            }
            config.save_scenes(scenes);
            Ok(body)
        },
        None => Err(ApiError { code: "SCENE_NOT_FOUND", message: "场景不存在".to_owned(), status: 404 }),
    }
}

/// Removes every scene with id `id` (the services keep running).
pub fn remove_scene(config: &mut ConfigManager, id: &str)
    ensures
        final(config).dir() == old(config).dir(),
        final(config)@ == (PersistedView {
            scenes: without_scene(old(config)@.scenes, id@),
            exported_at: final(config)@.exported_at,
            ..old(config)@
        }),
{
    let list = config.get_scenes();
    let mut kept: Vec<SceneConfig> = Vec::new();
    let mut i: usize = 0;
    while i < list.len()
        invariant
            i <= list@.len(),
            scene_views(kept@) == without_scene(scene_views(list@).take(i as int), id@),
        decreases list.len() - i,
    {
        let ghost t1 = scene_views(list@).take(i + 1);
        proof {
            assert(t1.drop_last() =~= scene_views(list@).take(i as int));
            assert(t1.last() == list@[i as int]@);
        }
        if !str_eq(list[i].id.as_str(), id) {
            let ghost before = kept@;
            kept.push(list[i].clone());
            proof {
                assert(scene_views(kept@) =~= scene_views(before).push(list@[i as int]@));
            }
        }
        i += 1;
    }
    proof {
        assert(scene_views(list@).take(list@.len() as int) =~= scene_views(list@));
    }
    config.save_scenes(kept);
}

/// Number of failed rows of a scene start.
pub open spec fn failures(s: Seq<SceneServerResult>) -> nat
    decreases s.len(),
{
    if s.len() == 0 {
        0
    } else {
        failures(s.drop_last()) + if s.last().success { 0nat } else { 1nat }
    }
}

/// Number of failed rows of a scene start.
pub fn failed_count(results: &Vec<SceneServerResult>) -> (r: usize)
    ensures
        r == failures(results@),
{
    let mut n: usize = 0;
    let mut i: usize = 0;
    while i < results.len()
        invariant
            i <= results@.len(),
            n == failures(results@.take(i as int)),
            n <= i,
        decreases results.len() - i,
    {
        proof {
            assert(results@.take(i + 1).drop_last() =~= results@.take(i as int));
            assert(results@.take(i + 1).last() == results@[i as int]);
        }
        if !results[i].success {
            n += 1;
        }
        i += 1;
    }
    proof {
        assert(results@.take(results@.len() as int) =~= results@);
    }
    n
}

// ======================== clients and messages ========================

/// The service and socket parts of a composite client id, split at its first
/// `___`; an id without one is a socket of no service.
pub open spec fn split_client(id: Seq<char>) -> (Seq<char>, Seq<char>) {
    if contains_sub(id, sep()) {
        let i = choose|i: int| first_occurrence_at(id, sep(), i);
        (id.subrange(0, i), id.subrange(i + 3, id.len() as int))
    } else {
        (Seq::empty(), id)
    }
}

/// Splits a composite client id (see [`split_client`]).
pub fn split_client_id(id: &str) -> (r: (String, String))
    ensures
        r.0@ == split_client(id@).0,
        r.1@ == split_client(id@).1,
{
    proof {
        reveal_strlit("___");
        assert(CLIENT_ID_SEP@ =~= sep());
    }
    let v = chars_of(id);
    match find(id, CLIENT_ID_SEP) {
        Some(i) => {
            proof {
                let c = choose|c: int| first_occurrence_at(id@, sep(), c);
                lemma_first_occurrence_unique(id@, sep(), i as int, c);
                assert(i + 3 <= v@.len());
            }
            (string_from_range(&v, 0, i), string_from_range(&v, i + 3, v.len()))
        },
        None => (String::new(), id.to_owned()),
    }
}

/// The service a message is sent through: the given service id, else the
/// service part of the client id; `SERVER_NOT_FOUND` when that is empty.
pub fn send_server_id(server_id: Option<String>, client_id: Option<String>) -> (r: Result<String, ApiError>)
    ensures
        ({
            let chosen: Seq<char> = match server_id {
                Some(s) => s@,
                None => match client_id {
                    Some(c) => if contains_sub(c@, sep()) { split_client(c@).0 } else { Seq::empty() },
                    None => Seq::empty(),
                },
            };
            match r {
                Ok(s) => s@ == chosen && chosen.len() > 0,
                Err(e) => chosen.len() == 0 && e.code@ == "SERVER_NOT_FOUND"@ && e.message@ == "无法确定服务 ID"@ && e.status == 400,
            }
        }),
{
    let chosen = match server_id {
        Some(s) => s,
        None => match client_id {
            Some(c) => {
                let (s, _) = split_client_id(c.as_str());
                s
            },
            None => String::new(),
        },
    };
    if chosen.as_str().is_empty() {
        return Err(ApiError { code: "SERVER_NOT_FOUND", message: "无法确定服务 ID".to_owned(), status: 400 });
    }
    Ok(chosen)
}

/// The payload of a send request, as JSON text: the given data (JSON text);
/// else the content, read as JSON when the message type is `json` (kept as
/// a string when it is not JSON) and as a string otherwise; else `null`.
pub open spec fn send_data_spec(data: Option<Seq<char>>, content: Option<&str>, message_type: Option<Seq<char>>) -> Seq<char> {
    match data {
        Some(d) => d,
        None => match content {
            Some(c) => if message_type == Some("json"@) {
                match json_reprint(c.spec_bytes()) {
                    Some(t) => t,
                    None => json_string_text(c@),
                }
            } else {
                json_string_text(c@)
            },
            None => "null"@,
        },
    }
}

/// The payload of a send request (see [`send_data_spec`]).
pub fn send_data(data: Option<String>, content: Option<&str>, message_type: Option<&str>) -> (r: String)
    ensures
        r@ == send_data_spec(
            match data {
                Some(d) => Some(d@),
                None => None,
            },
            content,
            match message_type {
                Some(m) => Some(m@),
                None => None,
            },
        ),
{
    match data {
        Some(d) => d,
        None => match content {
            Some(c) => {
                let is_json = match message_type {
                    Some(m) => str_eq(m, "json"),
                    None => false,
                };
                if is_json {
                    match reprint_json(c.as_bytes()) {
                        Some(t) => t,
                        None => json_string(c),
                    }
                } else {
                    json_string(c)
                }
            },
            None => "null".to_owned(),
        },
    }
}

// ======================== log queries ========================

/// The level a query names by its upper-case name; `None` for anything else.
pub fn parse_level(s: &str) -> (r: Option<LogLevel>)
    ensures
        match r {
            Some(l) => s@ == level_name(l),
            None => forall|l: LogLevel| s@ != level_name(l),
        },
{
    if str_eq(s, LogLevel::Debug.as_str()) {
        Some(LogLevel::Debug)
    } else if str_eq(s, LogLevel::Info.as_str()) {
        Some(LogLevel::Info)
    } else if str_eq(s, LogLevel::Warn.as_str()) {
        Some(LogLevel::Warn)
    } else if str_eq(s, LogLevel::Error.as_str()) {
        Some(LogLevel::Error)
    } else {
        None
    }
}

// ======================== laws ========================

/// Removing a service drops exactly the services with that id.
pub proof fn law_without_server(s: Seq<ServerConfigView>, id: Seq<char>)
    ensures
        forall|i: int| 0 <= i < without_server(s, id).len() ==> #[trigger] without_server(s, id)[i].id@ != id,
        without_server(s, id).len() <= s.len(),
    decreases s.len(),
{
    if s.len() > 0 {
        law_without_server(s.drop_last(), id);
    }
}

/// A composite id `serverId___socketId` splits back into its parts when its
/// first `___` is the separator.
pub proof fn law_split_composite(server_id: Seq<char>, socket_id: Seq<char>)
    requires
        first_occurrence_at(server_id + sep() + socket_id, sep(), server_id.len() as int),
    ensures
        split_client(server_id + sep() + socket_id) == (server_id, socket_id),
{
    let s = server_id + sep() + socket_id;
    let n = server_id.len() as int;
    let c = choose|c: int| first_occurrence_at(s, sep(), c);
    lemma_first_occurrence_unique(s, sep(), n, c);
    assert(s.subrange(0, n) =~= server_id);
    assert(s.subrange(n + 3, s.len() as int) =~= socket_id);
}

/// Listing a service's events keeps exactly its events: every listed event
/// belongs to the service and is one of the events, every event of the
/// service is listed, and the listing is the events with the other services'
/// ones left out (same order, same multiplicity).
pub proof fn law_events_of_server(s: Seq<EventConfig>, sid: Seq<char>)
    ensures
        forall|i: int| 0 <= i < events_of(s, sid).len() ==> #[trigger] events_of(s, sid)[i].server_id@ == sid,
        forall|i: int| 0 <= i < events_of(s, sid).len() ==> s.contains(#[trigger] events_of(s, sid)[i]),
        forall|j: int| 0 <= j < s.len() && #[trigger] s[j].server_id@ == sid ==> events_of(s, sid).contains(s[j]),
        events_of(s, sid) == s.filter(|e: EventConfig| e.server_id@ == sid),
    decreases s.len(),
{
    reveal(Seq::filter);
    if s.len() > 0 {
        let init = s.drop_last();
        law_events_of_server(init, sid);
        let r0 = events_of(init, sid);
        let r = events_of(s, sid);
        assert forall|i: int| 0 <= i < r.len() implies #[trigger] r[i].server_id@ == sid by {
            if i < r0.len() {
                assert(r[i] == r0[i]);
            }
        }
        assert forall|i: int| 0 <= i < r.len() implies s.contains(#[trigger] r[i]) by {
            if i < r0.len() {
                assert(r[i] == r0[i]);
                let k = choose|k: int| 0 <= k < init.len() && init[k] == r0[i];
                assert(s[k] == init[k]);
            } else {
                assert(s[s.len() - 1] == r[i]);
            }
        }
        assert forall|j: int| 0 <= j < s.len() && #[trigger] s[j].server_id@ == sid implies r.contains(s[j]) by {
            if j < s.len() - 1 {
                assert(init[j] == s[j]);
                assert(init[j].server_id@ == sid);
                let k = choose|k: int| 0 <= k < r0.len() && r0[k] == init[j];
                assert(r[k] == r0[k]);
            } else {
                assert(r[r.len() - 1] == s.last());
            }
        }
    }
}

} // verus!
