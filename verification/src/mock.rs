//! The mock engine: picks the response for a request (first matching rule,
//! else the endpoint's default) and describes it as plain values.
//!
//! Sleeping for the delay and writing the HTTP response happen outside this
//! crate; here the response is a [`MockResponse`] plan.

use vstd::prelude::*;

use crate::matcher::{match_rule, rule_matches};
use crate::query::{parse_query, query_map, represents};
use crate::text::{chars_of, has_prefix, owned, starts_with, str_eq, string_from_range, trim_end, trim_end_spec, views};
use crate::types::{
    clone_rules, rule_views, MockMatchCondition, MockRule, MockRuleView, MockServiceConfig, MockServiceView,
    ServerConfig,
};

verus! {

broadcast use vstd::string::group_string_axioms;

// ==================== outside call ====================

/// The text `serde_json` produces when `raw` is parsed as JSON and printed
/// with `to_string_pretty`; `raw` itself when it is not valid JSON. It is a
/// function of `raw` alone.
pub uninterp spec fn json_pretty(raw: Seq<char>) -> Seq<char>;

/// Pretty-prints a JSON text (`serde_json::from_str::<Value>` followed by
/// `serde_json::to_string_pretty`), keeping the text unchanged when it does not
/// parse. The result is named, not described.
#[verifier::external_body]
pub(crate) fn pretty_json(raw: &str) -> (r: String)
    ensures
        r@ == json_pretty(raw@),
{
    match serde_json::from_str::<serde_json::Value>(raw) {
        Ok(v) => serde_json::to_string_pretty(&v).unwrap_or_else(|_| raw.to_string()),
        Err(_) => raw.to_string(),
    }
}

/// The `Duration` that `std::time::Duration::from_millis(ms)` makes: `ms`
/// milliseconds. `Duration` is opaque here, so the value is named; it is a
/// function of `ms` alone.
pub uninterp spec fn duration_of(ms: u64) -> std::time::Duration;

/// A duration of `ms` milliseconds (`std::time::Duration::from_millis`); its
/// result is named [`duration_of`].
#[verifier::external_body]
fn millis(ms: u64) -> (r: std::time::Duration)
    ensures
        r == duration_of(ms),
{
    std::time::Duration::from_millis(ms)
}

// ==================== responses ====================

/// The JSON content type every mock response carries.
pub open spec fn json_content_type() -> Seq<char> {
    "application/json; charset=utf-8"@
}

/// The name of the content-type header.
pub open spec fn content_type_name() -> Seq<char> {
    "content-type"@
}

/// A mock response to write: status, headers in insertion order (a later
/// header of the same name replaces an earlier one), body and the delay to
/// wait before answering.
#[derive(Debug)]
pub struct MockResponse {
    pub status: u16,
    pub headers: Vec<(String, String)>,
    pub body: String,
    pub delay_ms: u32,
}

/// Response delay marker.
#[derive(Debug, Clone, Copy)]
pub struct DelayMs(pub u32);

impl DelayMs {
    /// The delay as a `Duration` of exactly that many milliseconds.
    pub fn duration(self) -> (r: std::time::Duration)
        ensures
            r == duration_of(self.0 as u64),
    {
        millis(self.0 as u64)
    }
}

/// The status actually sent: a code in `100..=999` is kept, any other code
/// becomes 200 (the range `http::StatusCode::from_u16` accepts).
pub open spec fn effective_status(code: u16) -> u16 {
    if 100 <= code <= 999 {
        code
    } else {
        200
    }
}

/// The status actually sent for a configured code.
pub fn response_status(code: u16) -> (r: u16)
    ensures
        r == effective_status(code),
{
    if 100 <= code && code <= 999 {
        code
    } else {
        200
    }
}

/// Header pairs of a rule response: the JSON content type, then every
/// enabled rule header with a non-empty name, in order.
pub open spec fn rule_header_pairs(hs: Seq<MockMatchCondition>) -> Seq<(Seq<char>, Seq<char>)>
    decreases hs.len(),
{
    if hs.len() == 0 {
        seq![(content_type_name(), json_content_type())]
    } else {
        let r = rule_header_pairs(hs.drop_last());
        let h = hs.last();
        if h.enabled && h.key@.len() > 0 {
            r.push((h.key@, h.value@))
        } else {
            r
        }
    }
}

/// The views of header pairs.
pub open spec fn pair_views(v: Seq<(String, String)>) -> Seq<(Seq<char>, Seq<char>)> {
    v.map_values(|p: (String, String)| (p.0@, p.1@))
}

/// The response a matched rule produces.
pub open spec fn is_rule_response(
    r: MockResponse,
    status: u16,
    headers: Seq<MockMatchCondition>,
    body: Seq<char>,
    delay: u32,
) -> bool {
    &&& r.status == effective_status(status)
    &&& pair_views(r.headers@) == rule_header_pairs(headers)
    &&& r.body@ == json_pretty(body)
    &&& r.delay_ms == delay
}

/// The response when no rule matches.
pub open spec fn is_default_response(r: MockResponse, status: u16, body: Seq<char>, delay: u32) -> bool {
    &&& r.status == effective_status(status)
    &&& pair_views(r.headers@) == seq![(content_type_name(), json_content_type())]
    &&& r.body@ == json_pretty(body)
    &&& r.delay_ms == delay
}

/// The header list with only the JSON content type.
fn json_headers() -> (r: Vec<(String, String)>)
    ensures
        pair_views(r@) == seq![(content_type_name(), json_content_type())],
{
    let mut v: Vec<(String, String)> = Vec::new();
    v.push((owned("content-type"), owned("application/json; charset=utf-8")));
    assert(pair_views(v@) =~= seq![(content_type_name(), json_content_type())]);
    v
}

/// Response of a service with no matching rule: its default status, the
/// pretty-printed default body and its default delay.
pub fn default_response(cfg: &MockServiceConfig) -> (r: MockResponse)
    ensures
        is_default_response(r, cfg.default_status_code, cfg.default_response_body@, cfg.default_delay_ms),
{
    MockResponse {
        status: response_status(cfg.default_status_code),
        headers: json_headers(),
        body: pretty_json(cfg.default_response_body.as_str()),
        delay_ms: cfg.default_delay_ms,
    }
}

/// Response of a matched rule: its status, the JSON content type plus its
/// enabled, named headers, its pretty-printed body and its delay.
pub fn rule_response(
    rule_status: u16,
    rule_headers: &[MockMatchCondition],
    rule_body: &str,
    rule_delay_ms: u32,
) -> (r: MockResponse)
    ensures
        is_rule_response(r, rule_status, rule_headers@, rule_body@, rule_delay_ms),
{
    let mut headers = json_headers();
    let mut i: usize = 0;
    assert(rule_headers@.take(0) =~= Seq::<MockMatchCondition>::empty());
    while i < rule_headers.len()
        invariant
            i <= rule_headers.len(),
            pair_views(headers@) == rule_header_pairs(rule_headers@.take(i as int)),
        decreases rule_headers.len() - i,
    {
        let h = &rule_headers[i];
        assert(rule_headers@.take(i + 1).drop_last() == rule_headers@.take(i as int));
        assert(rule_headers@.take(i + 1).last() == rule_headers@[i as int]);
        if h.enabled && !h.key.as_str().is_empty() {
            let ghost before = pair_views(headers@);
            headers.push((h.key.clone(), h.value.clone()));
            assert(pair_views(headers@) =~= before.push((h.key@, h.value@)));
        }
        i += 1;
    }
    assert(rule_headers@.take(rule_headers.len() as int) == rule_headers@);
    MockResponse {
        status: response_status(rule_status),
        headers,
        body: pretty_json(rule_body),
        delay_ms: rule_delay_ms,
    }
}

// ==================== the engine ====================

/// A mock endpoint: ordered rules plus the default answer.
#[derive(Debug)]
pub struct MockEndpoint {
    pub rules: Vec<MockRule>,
    pub default_status_code: u16,
    pub default_response_body: String,
    pub default_delay_ms: u32,
}

/// A parsed request; `path` is already relative to any base path.
pub struct MockRequest<'a> {
    pub method: &'a str,
    pub path: &'a str,
    /// Header pairs with lower-case names.
    pub headers: &'a [(String, String)],
    /// Decoded query pairs.
    pub query: &'a [(String, String)],
    pub body: &'a [u8],
}

/// Index of the first rule that matches the request, if any.
pub open spec fn first_match(
    rules: Seq<MockRuleView>,
    method: Seq<char>,
    path: Seq<char>,
    headers: Seq<(String, String)>,
    query: Seq<(String, String)>,
    body: Seq<u8>,
) -> Option<int> {
    if exists|i: int|
        0 <= i < rules.len() && #[trigger] rule_matches(rules[i], method, path, headers, query, body)
    {
        Some(
            choose|i: int|
                0 <= i < rules.len() && rule_matches(rules[i], method, path, headers, query, body)
                    && forall|j: int|
                    0 <= j < i ==> !#[trigger] rule_matches(
                        rules[j],
                        method,
                        path,
                        headers,
                        query,
                        body,
                    ),
        )
    } else {
        None
    }
}

/// Whether `r` is the engine's answer for `req` on an endpoint with `rules`
/// and the given defaults: the first matching rule's response, else the
/// default response.
pub open spec fn is_engine_response(
    r: MockResponse,
    rules: Seq<MockRuleView>,
    default_status: u16,
    default_body: Seq<char>,
    default_delay: u32,
    method: Seq<char>,
    path: Seq<char>,
    headers: Seq<(String, String)>,
    query: Seq<(String, String)>,
    body: Seq<u8>,
) -> bool {
    match first_match(rules, method, path, headers, query, body) {
        Some(i) => is_rule_response(
            r,
            rules[i].response_status_code,
            rules[i].response_headers,
            rules[i].response_body@,
            rules[i].response_delay_ms,
        ),
        None => is_default_response(r, default_status, default_body, default_delay),
    }
}

/// The engine: tries the rules in order and answers with the first match,
/// or with the endpoint's default response.
pub fn dispatch(endpoint: &MockEndpoint, req: &MockRequest) -> (r: MockResponse)
    ensures
        is_engine_response(
            r,
            rule_views(endpoint.rules@),
            endpoint.default_status_code,
            endpoint.default_response_body@,
            endpoint.default_delay_ms,
            req.method@,
            req.path@,
            req.headers@,
            req.query@,
            req.body@,
        ),
{
    let ghost rv = rule_views(endpoint.rules@);
    let mut i: usize = 0;
    while i < endpoint.rules.len()
        invariant
            i <= endpoint.rules.len(),
            rv == rule_views(endpoint.rules@),
            forall|j: int|
                0 <= j < i ==> !#[trigger] rule_matches(
                    rv[j],
                    req.method@,
                    req.path@,
                    req.headers@,
                    req.query@,
                    req.body@,
                ),
        decreases endpoint.rules.len() - i,
    {
        let rule = &endpoint.rules[i];
        let hit = match_rule(rule, req.method, req.path, req.headers, req.query, req.body);
        if hit.is_some() {
            assert(rv[i as int] == rule@);
            let r = rule_response(
                rule.response_status_code,
                rule.response_headers.as_slice(),
                rule.response_body.as_str(),
                rule.response_delay_ms,
            );
            proof {
                let m = first_match(rv, req.method@, req.path@, req.headers@, req.query@, req.body@);
                assert(rule_matches(rv[i as int], req.method@, req.path@, req.headers@, req.query@, req.body@));
                let k = m.unwrap();
                if k < i {
                    assert(!rule_matches(rv[k], req.method@, req.path@, req.headers@, req.query@, req.body@));
                }
                if k > i {
                    assert(!rule_matches(rv[i as int], req.method@, req.path@, req.headers@, req.query@, req.body@));
                }
                assert(k == i);
            }
            return r;
        }
        assert(rv[i as int] == rule@);
        i += 1;
    }
    MockResponse {
        status: response_status(endpoint.default_status_code),
        headers: json_headers(),
        body: pretty_json(endpoint.default_response_body.as_str()),
        delay_ms: endpoint.default_delay_ms,
    }
}

/// The endpoint of an independent mock service (its rules and defaults).
pub fn service_endpoint(cfg: &MockServiceConfig) -> (r: MockEndpoint)
    ensures
        rule_views(r.rules@) == rule_views(cfg.rules@),
        r.default_status_code == cfg.default_status_code,
        r.default_response_body@ == cfg.default_response_body@,
        r.default_delay_ms == cfg.default_delay_ms,
{
    MockEndpoint {
        rules: clone_rules(&cfg.rules),
        default_status_code: cfg.default_status_code,
        default_response_body: cfg.default_response_body.clone(),
        default_delay_ms: cfg.default_delay_ms,
    }
}


/// The path a mock service sees: the request path relative to the service's
/// base path (without trailing `/`); the root `/` for the base itself; the
/// full path when the base is empty or does not lead the path.
pub open spec fn strip_base_spec(full: Seq<char>, base: Seq<char>) -> Seq<char> {
    let b = trim_end_spec(base, '/');
    if b.len() == 0 {
        full
    } else if full == b {
        seq!['/']
    } else if has_prefix(full, b) && full[b.len() as int] == '/' {
        full.subrange(b.len() as int, full.len() as int)
    } else {
        full
    }
}

/// The request path relative to a base path (see [`strip_base_spec`]).
pub fn strip_base(full: &str, base: &str) -> (r: String)
    ensures
        r@ == strip_base_spec(full@, base@),
{
    let b = trim_end(base, '/');
    if b.as_str().is_empty() {
        return full.to_owned();
    }
    if str_eq(full, b.as_str()) {
        proof {
            reveal_strlit("/");
        }
        let r = "/".to_owned();
        assert(r@ =~= seq!['/']);
        return r;
    }
    if starts_with(full, b.as_str()) {
        let v = chars_of(full);
        let bl = chars_of(b.as_str()).len();
        proof {
            if bl == v.len() {
                assert(full@ =~= full@.subrange(0, b@.len() as int));
            }
        }
        if v[bl] == '/' {
            return string_from_range(&v, bl, v.len());
        }
    }
    full.to_owned()
}

/// `r` is the answer of service `cfg` to a request: the path made relative
/// to the service's base path, the query text decoded, the engine's answer.
pub open spec fn dispatched(
    r: MockResponse,
    cfg: MockServiceView,
    method: Seq<char>,
    full_path: Seq<char>,
    query: Option<Seq<char>>,
    headers: Seq<(String, String)>,
    body: Seq<u8>,
) -> bool {
    exists|q: Seq<(String, String)>|
        represents(q, query_map(query))
        && is_engine_response(
            r,
            cfg.rules,
            cfg.default_status_code,
            cfg.default_response_body@,
            cfg.default_delay_ms,
            method,
            strip_base_spec(full_path, cfg.base_path@),
            headers,
            q,
            body,
        )
}

/// A request to an independent mock service: the path is made relative to
/// the service's base path, the query text is decoded, and the engine answers.
pub fn service_dispatch(
    cfg: &MockServiceConfig,
    method: &str,
    full_path: &str,
    query: Option<&str>,
    headers: &[(String, String)],
    body: &[u8],
) -> (r: MockResponse)
    ensures
        dispatched(r, cfg@, method@, full_path@, match query { Some(t) => Some(t@), None => None }, headers@, body@),
{
    let relative = strip_base(full_path, cfg.base_path.as_str());
    let q = parse_query(query);
    let endpoint = service_endpoint(cfg);
    let req = MockRequest {
        method,
        path: relative.as_str(),
        headers,
        query: q.as_slice(),
        body,
    };
    dispatch(&endpoint, &req)
}

/// The endpoint of a service's shared-port mock (its mock rules and defaults).
pub fn unified_endpoint(cfg: &ServerConfig) -> (r: MockEndpoint)
    ensures
        rule_views(r.rules@) == rule_views(cfg.mock_rules@),
        r.default_status_code == cfg.mock_default_status_code,
        r.default_response_body@ == cfg.mock_default_response_body@,
        r.default_delay_ms == cfg.mock_default_delay_ms,
{
    MockEndpoint {
        rules: clone_rules(&cfg.mock_rules),
        default_status_code: cfg.mock_default_status_code,
        default_response_body: cfg.mock_default_response_body.clone(),
        default_delay_ms: cfg.mock_default_delay_ms,
    }
}

/// A plain HTTP request on a service's shared port: the full path is
/// matched (there is no base path), the query text is decoded, and the
/// engine answers with the service's mock rules and defaults.
pub fn unified_dispatch(
    cfg: &ServerConfig,
    method: &str,
    full_path: &str,
    query: Option<&str>,
    headers: &[(String, String)],
    body: &[u8],
) -> (r: MockResponse)
    ensures
        exists|q: Seq<(String, String)>|
            represents(q, query_map(match query { Some(t) => Some(t@), None => None }))
            && is_engine_response(
                r,
                rule_views(cfg.mock_rules@),
                cfg.mock_default_status_code,
                cfg.mock_default_response_body@,
                cfg.mock_default_delay_ms,
                method@,
                full_path@,
                headers@,
                q,
                body@,
            ),
{
    let q = parse_query(query);
    let endpoint = unified_endpoint(cfg);
    let req = MockRequest { method, path: full_path, headers, query: q.as_slice(), body };
    dispatch(&endpoint, &req)
}

// ==================== laws ====================

/// One engine for both configurations: a mock service whose base path is
/// empty (or only slashes) answers a request exactly as a shared port with
/// the same rules and defaults answers it.
pub proof fn law_one_engine(
    r: MockResponse,
    cfg: MockServiceView,
    method: Seq<char>,
    full_path: Seq<char>,
    query: Option<Seq<char>>,
    headers: Seq<(String, String)>,
    body: Seq<u8>,
)
    requires
        trim_end_spec(cfg.base_path@, '/').len() == 0,
        dispatched(r, cfg, method, full_path, query, headers, body),
    ensures
        exists|q: Seq<(String, String)>|
            represents(q, query_map(query)) && is_engine_response(
                r,
                cfg.rules,
                cfg.default_status_code,
                cfg.default_response_body@,
                cfg.default_delay_ms,
                method,
                full_path,
                headers,
                q,
                body,
            ),
{
}

/// A request below a service's base path reaches the rules with the path
/// relative to the base; the base itself is the root `/`.
pub proof fn law_base_is_stripped(base: Seq<char>, rest: Seq<char>)
    requires
        trim_end_spec(base, '/').len() > 0,
        rest.len() > 0,
        rest[0] == '/',
    ensures
        strip_base_spec(trim_end_spec(base, '/') + rest, base) == rest,
        strip_base_spec(trim_end_spec(base, '/'), base) == seq!['/'],
{
    let b = trim_end_spec(base, '/');
    let full = b + rest;
    assert(full.subrange(0, b.len() as int) =~= b);
    assert(full[b.len() as int] == '/');
    assert(full.subrange(b.len() as int, full.len() as int) =~= rest);
    assert(full != b);
}

} // verus!
