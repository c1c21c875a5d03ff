//! Routing decisions of managed HTTP services: placeholder conversion,
//! default routes, the route lookup table, grouping of routes per path, and
//! the event name and data of an inbound request.

use vstd::prelude::*;

use crate::keyed::{distinct, entry_map, get_value, upsert};
use crate::query::{lossy_text, utf8_lossy};
use crate::text::{
    after_last, after_last_char, chars_of, concat, join_spec, join_strings, split_chars,
    split_spec, trim_end, trim_end_spec, upper_ascii, ascii_upper_seq, views,
};
use crate::types::{
    clone_routes, method_name, HttpMethod, HttpRouteConfig, HttpRouteType, ProtocolType,
    ServerConfig,
};

verus! {

broadcast use vstd::string::group_string_axioms;

// ==================== paths ====================

/// One path segment in axum syntax: `{name}` (with a non-empty name)
/// becomes `:name`, anything else is kept.
pub open spec fn axum_segment(seg: Seq<char>) -> Seq<char> {
    if seg.len() > 2 && seg[0] == '{' && seg.last() == '}' {
        seq![':'] + seg.subrange(1, seg.len() - 1)
    } else {
        seg
    }
}

/// A path with its `{name}` segments written as `:name`.
pub open spec fn axum_path(p: Seq<char>) -> Seq<char> {
    join_spec(split_spec(p, '/').map_values(|s: Seq<char>| axum_segment(s)), '/')
}

/// One segment in axum syntax.
fn to_axum_segment(seg: &String) -> (r: String)
    ensures
        r@ == axum_segment(seg@),
{
    let v = chars_of(seg.as_str());
    if v.len() > 2 && v[0] == '{' && v[v.len() - 1] == '}' {
        let mut out: Vec<char> = Vec::new();
        out.push(':');
        let mut i: usize = 1;
        while i < v.len() - 1
            invariant
                1 <= i <= v.len() - 1,
                v.len() > 2,
                out@ == seq![':'] + v@.subrange(1, i as int),
            decreases v.len() - 1 - i,
        {
            out.push(v[i]);
            assert(v@.subrange(1, i + 1) == v@.subrange(1, i as int).push(v@[i as int]));
            i += 1;
        }
        crate::text::string_from_chars(&out)
    } else {
        seg.clone()
    }
}

/// Converts `{name}` placeholders of a user path to axum's `:name` syntax.
pub fn to_axum_path(p: &str) -> (r: String)
    ensures
        r@ == axum_path(p@),
{
    let v = chars_of(p);
    let segs = split_chars(&v, '/');
    let mut out: Vec<String> = Vec::new();
    let ghost sv = views(segs@);
    let mut i: usize = 0;
    while i < segs.len()
        invariant
            i <= segs.len(),
            sv == views(segs@),
            views(out@) == sv.take(i as int).map_values(|s: Seq<char>| axum_segment(s)),
        decreases segs.len() - i,
    {
        let ghost before = views(out@);
        out.push(to_axum_segment(&segs[i]));
        assert(views(out@) =~= before.push(axum_segment(sv[i as int])));
        assert(sv.take(i + 1).map_values(|s: Seq<char>| axum_segment(s)) =~= sv.take(
            i as int,
        ).map_values(|s: Seq<char>| axum_segment(s)).push(axum_segment(sv[i as int])));
        i += 1;
    }
    assert(sv.take(segs.len() as int) == sv);
    join_strings(&out, '/')
}

// ==================== default routes ====================

/// The built-in routes used when a service defines none:
/// `POST /{event}` (inbound) and `GET /stream` (stream).
pub open spec fn is_default_routes(r: Seq<HttpRouteConfig>) -> bool {
    &&& r.len() == 2
    &&& r[0].id@ == "__default_inbound"@
    &&& r[0].method == HttpMethod::Post
    &&& r[0].path@ == "/{event}"@
    &&& r[0].route_type == HttpRouteType::Inbound
    &&& r[0].event is None
    &&& r[0].description matches Some(d) && d@ == "默认入站 POST /{event}"@
    &&& r[1].id@ == "__default_stream"@
    &&& r[1].method == HttpMethod::Get
    &&& r[1].path@ == "/stream"@
    &&& r[1].route_type == HttpRouteType::Stream
    &&& r[1].event is None
    &&& r[1].description matches Some(d) && d@ == "默认 SSE 推送 GET /stream"@
}

/// The built-in routes: `POST /{event}` inbound and `GET /stream` stream.
pub fn default_http_routes() -> (r: Vec<HttpRouteConfig>)
    ensures
        is_default_routes(r@),
{
    let mut v: Vec<HttpRouteConfig> = Vec::new();
    v.push(
        HttpRouteConfig {
            id: "__default_inbound".to_owned(),
            method: HttpMethod::Post,
            path: "/{event}".to_owned(),
            route_type: HttpRouteType::Inbound,
            event: None,
            description: Some("默认入站 POST /{event}".to_owned()),
        },
    );
    v.push(
        HttpRouteConfig {
            id: "__default_stream".to_owned(),
            method: HttpMethod::Get,
            path: "/stream".to_owned(),
            route_type: HttpRouteType::Stream,
            event: None,
            description: Some("默认 SSE 推送 GET /stream".to_owned()),
        },
    );
    v
}

/// The routes a managed HTTP service serves: its own, or the defaults when
/// it has none.
pub open spec fn effective_routes_spec(cfg_routes: Seq<HttpRouteConfig>, r: Seq<HttpRouteConfig>) -> bool {
    if cfg_routes.len() == 0 {
        is_default_routes(r)
    } else {
        r == cfg_routes
    }
}

/// The routes of a managed HTTP service.
pub fn effective_routes(cfg: &ServerConfig) -> (r: Vec<HttpRouteConfig>)
    ensures
        effective_routes_spec(cfg.http_routes@, r@),
{
    if cfg.http_routes.len() == 0 {
        default_http_routes()
    } else {
        clone_routes(&cfg.http_routes)
    }
}

/// The HTTP routes of a shared-port service: those of an HTTP service, none
/// for the other protocols.
pub fn unified_routes(cfg: &ServerConfig) -> (r: Vec<HttpRouteConfig>)
    ensures
        cfg.protocol == ProtocolType::Http ==> effective_routes_spec(cfg.http_routes@, r@),
        cfg.protocol != ProtocolType::Http ==> r@.len() == 0,
{
    if cfg.protocol == ProtocolType::Http {
        effective_routes(cfg)
    } else {
        Vec::new()
    }
}

// ==================== route table ====================

/// The lookup key of a route: `"METHOD /axum/path"`.
pub open spec fn route_key(r: HttpRouteConfig) -> Seq<char> {
    method_name(r.method) + seq![' '] + axum_path(r.path@)
}

/// The lookup key of a route.
pub fn route_key_of(r: &HttpRouteConfig) -> (k: String)
    ensures
        k@ == route_key(*r),
{
    let head = concat(r.method.as_str(), " ");
    let p = to_axum_path(r.path.as_str());
    proof {
        reveal_strlit(" ");
    }
    concat(head.as_str(), p.as_str())
}

/// The route table: every route under its key, a later route replacing an
/// earlier one with the same key.
pub open spec fn routes_map(routes: Seq<HttpRouteConfig>) -> Map<Seq<char>, HttpRouteConfig>
    decreases routes.len(),
{
    if routes.len() == 0 {
        Map::empty()
    } else {
        routes_map(routes.drop_last()).insert(route_key(routes.last()), routes.last())
    }
}

/// Builds the route table of `"METHOD /axum/path"` keys.
pub fn build_routes_map(effective: &[HttpRouteConfig]) -> (r: Vec<(String, HttpRouteConfig)>)
    ensures
        distinct(r@),
        entry_map(r@) == routes_map(effective@),
{
    let mut m: Vec<(String, HttpRouteConfig)> = Vec::new();
    assert(entry_map(m@) =~= Map::<Seq<char>, HttpRouteConfig>::empty());
    let mut i: usize = 0;
    while i < effective.len()
        invariant
            i <= effective.len(),
            distinct(m@),
            entry_map(m@) == routes_map(effective@.take(i as int)),
        decreases effective.len() - i,
    {
        assert(effective@.take(i + 1).drop_last() == effective@.take(i as int));
        assert(effective@.take(i + 1).last() == effective@[i as int]);
        let k = route_key_of(&effective[i]);
        upsert(&mut m, k, effective[i].clone());
        i += 1;
    }
    assert(effective@.take(effective.len() as int) == effective@);
    m
}

// ==================== grouping per path ====================

/// Methods registered per axum path for the routes of one kind (`stream`
/// selects stream routes, otherwise inbound ones); each method once, in
/// first-seen order.
pub open spec fn group_map(routes: Seq<HttpRouteConfig>, stream: bool) -> Map<
    Seq<char>,
    Seq<HttpMethod>,
>
    decreases routes.len(),
{
    if routes.len() == 0 {
        Map::empty()
    } else {
        let m = group_map(routes.drop_last(), stream);
        let r = routes.last();
        let p = axum_path(r.path@);
        if (r.route_type == HttpRouteType::Stream) != stream {
            m
        } else if m.contains_key(p) {
            if m[p].contains(r.method) {
                m
            } else {
                m.insert(p, m[p].push(r.method))
            }
        } else {
            m.insert(p, seq![r.method])
        }
    }
}

/// The groups as a map of method sequences.
pub open spec fn group_views(v: Seq<(String, Vec<HttpMethod>)>) -> Map<Seq<char>, Seq<HttpMethod>> {
    entry_map(v).map_values(|ms: Vec<HttpMethod>| ms@)
}

/// Whether `ms` holds `m`.
fn has_method(ms: &Vec<HttpMethod>, m: HttpMethod) -> (r: bool)
    ensures
        r == ms@.contains(m),
{
    let mut i: usize = 0;
    while i < ms.len()
        invariant
            i <= ms.len(),
            forall|j: int| 0 <= j < i ==> ms@[j] != m,
        decreases ms.len() - i,
    {
        if ms[i] == m {
            return true;
        }
        i += 1;
    }
    false
}

/// Groups routes of one kind by axum path, each method once per path.
pub fn group_routes(effective: &[HttpRouteConfig], stream: bool) -> (r: Vec<
    (String, Vec<HttpMethod>),
>)
    ensures
        distinct(r@),
        group_views(r@) == group_map(effective@, stream),
{
    let mut m: Vec<(String, Vec<HttpMethod>)> = Vec::new();
    assert(group_views(m@) =~= Map::<Seq<char>, Seq<HttpMethod>>::empty());
    let mut i: usize = 0;
    while i < effective.len()
        invariant
            i <= effective.len(),
            distinct(m@),
            group_views(m@) == group_map(effective@.take(i as int), stream),
        decreases effective.len() - i,
    {
        let ghost pre = effective@.take(i as int);
        assert(effective@.take(i + 1).drop_last() == pre);
        assert(effective@.take(i + 1).last() == effective@[i as int]);
        let r = &effective[i];
        if (r.route_type == HttpRouteType::Stream) == stream {
            let p = to_axum_path(r.path.as_str());
            let ghost gm = group_map(pre, stream);
            match get_value(&m, p.as_str()) {
                Some(ms) => {
                    assert(gm.contains_key(p@) && gm[p@] == ms@);
                    if !has_method(ms, r.method) {
                        let mut ms2 = ms.clone();
                        assert(ms2@ =~= ms@);
                        ms2.push(r.method);
                        let ghost old_m = m@;
                        upsert(&mut m, p, ms2);
                        assert(group_views(m@) =~= group_views(old_m).insert(
                            p@,
                            gm[p@].push(r.method),
                        ));
                    }
                },
                None => {
                    let mut ms2: Vec<HttpMethod> = Vec::new();
                    ms2.push(r.method);
                    let ghost old_m = m@;
                    upsert(&mut m, p, ms2);
                    assert(group_views(m@) =~= group_views(old_m).insert(p@, seq![r.method]));
                },
            }
        }
        i += 1;
    }
    assert(effective@.take(effective.len() as int) == effective@);
    m
}

// ==================== inbound event names ====================

/// The event name of an inbound request: the route's fixed event, else the
/// `{event}` path parameter, else the last non-empty segment of the request
/// path (trailing `/` ignored), else `message`.
pub open spec fn ingress_event_spec(
    table: Map<Seq<char>, HttpRouteConfig>,
    method: Seq<char>,
    matched: Option<Seq<char>>,
    event_param: Option<Seq<char>>,
    uri_path: Seq<char>,
) -> Seq<char> {
    let key = match matched {
        Some(p) => Some(ascii_upper_seq(method) + seq![' '] + p),
        None => None,
    };
    let fixed = match key {
        Some(k) => if table.contains_key(k) {
            table[k].event
        } else {
            None
        },
        None => None,
    };
    let last = after_last(trim_end_spec(uri_path, '/'), '/');
    match fixed {
        Some(e) => e@,
        None => match event_param {
            Some(e) => e,
            None => if last.len() > 0 {
                last
            } else {
                "message"@
            },
        },
    }
}

/// The event name of an inbound request on a route table.
pub fn ingress_event(
    table: &Vec<(String, HttpRouteConfig)>,
    method: &str,
    matched: Option<&str>,
    event_param: Option<&str>,
    uri_path: &str,
) -> (r: String)
    requires
        distinct(table@),
    ensures
        r@ == ingress_event_spec(
            entry_map(table@),
            method@,
            match matched {
                Some(p) => Some(p@),
                None => None,
            },
            match event_param {
                Some(e) => Some(e@),
                None => None,
            },
            uri_path@,
        ),
{
    proof {
        reveal_strlit(" ");
        reveal_strlit("message");
    }
    let fixed: Option<String> = match matched {
        Some(p) => {
            let up = upper_ascii(method);
            let head = concat(up.as_str(), " ");
            let key = concat(head.as_str(), p);
            assert(" "@ =~= seq![' ']);
            assert(key@ == ascii_upper_seq(method@) + seq![' '] + p@);
            match get_value(table, key.as_str()) {
                Some(route) => route.event.clone(),
                None => None,
            }
        },
        None => None,
    };
    match fixed {
        Some(e) => e,
        None => match event_param {
            Some(e) => e.to_owned(),
            None => {
                let t = trim_end(uri_path, '/');
                let last = after_last_char(t.as_str(), '/');
                if last.as_str().is_empty() {
                    "message".to_owned()
                } else {
                    last
                }
            },
        },
    }
}

// ==================== inbound data ====================

/// The JSON text `serde_json` prints for the value `bytes` parse to, `None`
/// when they are not JSON. A function of the bytes alone.
pub uninterp spec fn json_reprint(bytes: Seq<u8>) -> Option<Seq<char>>;

/// A lower-case hexadecimal digit, for `0 <= n < 16`.
pub open spec fn hex_lower(n: int) -> char {
    if n < 10 {
        ('0' as int + n) as char
    } else {
        ('a' as int + n - 10) as char
    }
}

/// How a JSON string writes the character `c`: `\"` and `\\` for the quote
/// and the backslash, the short escapes `\b \t \n \f \r`, `\u00xx`
/// (lower-case hexadecimal) for the other characters below U+0020, and the
/// character itself for every other one.
pub open spec fn json_escape_char(c: char) -> Seq<char> {
    let n = c as int;
    if c == '"' {
        seq!['\\', '"']
    } else if c == '\\' {
        seq!['\\', '\\']
    } else if n == 8 {
        seq!['\\', 'b']
    } else if n == 9 {
        seq!['\\', 't']
    } else if n == 10 {
        seq!['\\', 'n']
    } else if n == 12 {
        seq!['\\', 'f']
    } else if n == 13 {
        seq!['\\', 'r']
    } else if n < 32 {
        seq!['\\', 'u', '0', '0', hex_lower(n / 16), hex_lower(n % 16)]
    } else {
        seq![c]
    }
}

/// The characters of `s`, each written as in a JSON string.
pub open spec fn json_escaped(s: Seq<char>) -> Seq<char>
    decreases s.len(),
{
    if s.len() == 0 {
        Seq::empty()
    } else {
        json_escaped(s.drop_last()) + json_escape_char(s.last())
    }
}

/// The JSON text of the string `s`: its escaped characters between quotes.
pub open spec fn json_string_text(s: Seq<char>) -> Seq<char> {
    seq!['"'] + json_escaped(s) + seq!['"']
}

/// Parses bytes as JSON and prints the value again (`serde_json::from_slice`
/// to a `Value`, then `to_string`); `None` when they are not JSON.
#[verifier::external_body]
pub(crate) fn reprint_json(bytes: &[u8]) -> (r: Option<String>)
    ensures
        match r {
            Some(t) => json_reprint(bytes@) == Some(t@),
            None => json_reprint(bytes@) is None,
        },
{
    serde_json::from_slice::<serde_json::Value>(bytes).ok().map(|v| v.to_string())
}

/// A text as a JSON string (`Value::String(..).to_string()`): `serde_json`
/// writes it between quotes, escaping as [`json_escape_char`] says.
#[verifier::external_body]
pub(crate) fn json_string(s: &str) -> (r: String)
    ensures
        r@ == json_string_text(s@),
{
    serde_json::Value::String(s.to_string()).to_string()
}

/// The data of an inbound request, as JSON text: `null` for an empty body,
/// the body itself when it is JSON, else the body (lossy UTF-8) as a JSON
/// string.
pub open spec fn ingress_data_spec(body: Seq<u8>) -> Seq<char> {
    if body.len() == 0 {
        "null"@
    } else {
        match json_reprint(body) {
            Some(t) => t,
            None => json_string_text(lossy_text(body)),
        }
    }
}

/// The data of an inbound request (see [`ingress_data_spec`]).
pub fn ingress_data(body: &[u8]) -> (r: String)
    ensures
        r@ == ingress_data_spec(body@),
{
    if body.len() == 0 {
        return "null".to_owned();
    }
    match reprint_json(body) {
        Some(t) => t,
        None => {
            let text = utf8_lossy(body);
            json_string(text.as_str())
        },
    }
}

} // verus!
