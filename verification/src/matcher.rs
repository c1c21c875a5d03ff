//! Mock rule matching: path patterns, methods, header / query conditions and
//! body substrings.
//!
//! Requests reach this module as plain values: header and query lookups are
//! lists of `(name, value)` pairs, the body is raw bytes.

use vstd::prelude::*;
use vstd::utf8::{decode_utf8, valid_utf8};

use crate::text::{
    chars_of, contains, contains_sub, eq_ignore_ascii_case, eq_ignore_case, join_spec, join_strings,
    lemma_trim_outer, split_chars, split_spec, str_eq, string_from_range, trim, trim_spec, views,
};
use crate::types::{method_name, HttpMethod, MockMatchCondition, MockRule, MockRuleView};

verus! {

broadcast use vstd::string::group_string_axioms;

// ==================== outside calls ====================

/// Result of compiling `pattern` with `regex::Regex::new` and, when that
/// succeeds, running `Regex::is_match` on `text`: `None` when the pattern does
/// not compile. It is a function of the two texts alone.
pub uninterp spec fn regex_outcome(pattern: Seq<char>, text: Seq<char>) -> Option<bool>;

/// Compiles `pattern` (`regex::Regex::new`) and tests `text` against it
/// (`Regex::is_match`); `None` when the pattern is not a valid regex. The
/// result is named, not described.
#[verifier::external_body]
fn regex_is_match(pattern: &str, text: &str) -> (r: Option<bool>)
    ensures
        r == regex_outcome(pattern@, text@),
{
    match regex::Regex::new(pattern) {
        Ok(re) => Some(re.is_match(text)),
        Err(_) => None,
    }
}

/// Decodes `bytes` as UTF-8 (`std::str::from_utf8`): the text when the bytes
/// are valid UTF-8, `None` otherwise.
#[verifier::external_body]
pub(crate) fn utf8_text(bytes: &[u8]) -> (r: Option<String>)
    ensures
        r is Some <==> valid_utf8(bytes@),
        r matches Some(s) ==> s@ == decode_utf8(bytes@),
{
    std::str::from_utf8(bytes).ok().map(|s| s.to_string())
}

// ==================== conditions ====================

/// How a condition compares, by its `match_kind` text.
pub open spec fn kind_is(cond: MockMatchCondition, k: Seq<char>) -> bool {
    cond.match_kind@ == k
}

/// Whether one condition passes for the looked-up value `actual`.
///
/// Disabled conditions pass. `exists` passes exactly for a present,
/// non-empty value (a missing key fails);
/// `contains` tests for a substring, `regex` for a regex match (an invalid
/// regex fails), and every other kind compares exactly; a missing value
/// counts as the empty text for those three.
pub open spec fn cond_passes(cond: MockMatchCondition, actual: Option<Seq<char>>) -> bool {
    let v = match actual {
        Some(a) => a,
        None => Seq::<char>::empty(),
    };
    if !cond.enabled {
        true
    } else if kind_is(cond, "exists"@) {
        actual matches Some(a) && a.len() > 0
    } else if kind_is(cond, "contains"@) {
        contains_sub(v, cond.value@)
    } else if kind_is(cond, "regex"@) {
        regex_outcome(cond.value@, v) == Some(true)
    } else {
        v == cond.value@
    }
}

/// Whether one condition passes for the value `actual`.
pub fn cond_match(cond: &MockMatchCondition, actual: Option<&str>) -> (r: bool)
    ensures
        r == cond_passes(*cond, match actual {
            Some(a) => Some(a@),
            None => None,
        }),
{
    if !cond.enabled {
        return true;
    }
    let empty = String::new();
    let v: &str = match actual {
        Some(a) => a,
        None => empty.as_str(),
    };
    let kind = cond.match_kind.as_str();
    proof {
        reveal_strlit("exists");
        reveal_strlit("contains");
        reveal_strlit("regex");
    }
    if str_eq(kind, "exists") {
        match actual {
            Some(a) => !a.is_empty(),
            None => false,
        }
    } else if str_eq(kind, "contains") {
        contains(v, cond.value.as_str())
    } else if str_eq(kind, "regex") {
        match regex_is_match(cond.value.as_str(), v) {
            Some(b) => b,
            None => false,
        }
    } else {
        str_eq(v, cond.value.as_str())
    }
}

/// Whether a lookup key `k` selects the entry named `name`.
pub open spec fn key_selects(name: Seq<char>, k: Seq<char>, ignore_case: bool) -> bool {
    if ignore_case {
        eq_ignore_ascii_case(name, k)
    } else {
        name == k
    }
}

/// The value of the first entry selected by `key` (header names compare up
/// to ASCII case, query keys exactly).
pub open spec fn lookup(pairs: Seq<(String, String)>, key: Seq<char>, ignore_case: bool) -> Option<
    Seq<char>,
>
    decreases pairs.len(),
{
    if pairs.len() == 0 {
        None
    } else if key_selects(pairs[0].0@, key, ignore_case) {
        Some(pairs[0].1@)
    } else {
        lookup(pairs.drop_first(), key, ignore_case)
    }
}

/// The value of the first entry selected by `key`.
pub fn lookup_value(pairs: &[(String, String)], key: &str, ignore_case: bool) -> (r: Option<
    String,
>)
    ensures
        match r {
            Some(v) => lookup(pairs@, key@, ignore_case) == Some(v@),
            None => lookup(pairs@, key@, ignore_case) is None,
        },
{
    let mut i: usize = 0;
    assert(pairs@.skip(0) == pairs@);
    while i < pairs.len()
        invariant
            i <= pairs.len(),
            lookup(pairs@, key@, ignore_case) == lookup(pairs@.skip(i as int), key@, ignore_case),
        decreases pairs.len() - i,
    {
        assert(pairs@.skip(i as int).drop_first() == pairs@.skip(i + 1));
        assert(pairs@.skip(i as int)[0] == pairs@[i as int]);
        let hit = if ignore_case {
            eq_ignore_case(pairs[i].0.as_str(), key)
        } else {
            str_eq(pairs[i].0.as_str(), key)
        };
        if hit {
            return Some(pairs[i].1.clone());
        }
        i += 1;
    }
    None
}

/// Every enabled condition passes for the value its key selects.
pub open spec fn all_pass(
    conds: Seq<MockMatchCondition>,
    values: Seq<(String, String)>,
    ignore_case: bool,
) -> bool {
    forall|i: int|
        0 <= i < conds.len() ==> #[trigger] cond_passes(
            conds[i],
            lookup(values, conds[i].key@, ignore_case),
        )
}

/// Whether every condition of a group passes (an empty group passes).
pub fn conds_all_pass(
    conds: &[MockMatchCondition],
    values: &[(String, String)],
    ignore_case: bool,
) -> (r: bool)
    ensures
        r == all_pass(conds@, values@, ignore_case),
{
    let mut i: usize = 0;
    while i < conds.len()
        invariant
            i <= conds.len(),
            forall|j: int|
                0 <= j < i ==> #[trigger] cond_passes(
                    conds@[j],
                    lookup(values@, conds@[j].key@, ignore_case),
                ),
        decreases conds.len() - i,
    {
        let c = &conds[i];
        if c.enabled {
            let actual = lookup_value(values, c.key.as_str(), ignore_case);
            let ok = match &actual {
                Some(a) => cond_match(c, Some(a.as_str())),
                None => cond_match(c, None),
            };
            if !ok {
                return false;
            }
        }
        i += 1;
    }
    true
}

// ==================== paths ====================

/// The segments of a path: the pieces between `/` after trimming `/` at both
/// ends (no segments for an empty trimmed path).
pub open spec fn segments(path: Seq<char>) -> Seq<Seq<char>> {
    let t = trim_spec(path, '/');
    if t.len() == 0 {
        Seq::<Seq<char>>::empty()
    } else {
        split_spec(t, '/')
    }
}

/// Prepends captured parameters to a match outcome.
pub open spec fn prepend_params(
    xs: Seq<(Seq<char>, Seq<char>)>,
    r: Option<Seq<(Seq<char>, Seq<char>)>>,
) -> Option<Seq<(Seq<char>, Seq<char>)>> {
    match r {
        Some(rest) => Some(xs + rest),
        None => None,
    }
}

/// Segment-wise matching of a pattern against a path.
///
/// A `*` segment swallows every remaining path segment (at least one) and
/// captures them joined with `/` under the name `*`; a `:name` segment
/// captures one segment; any other segment must be equal. Both sides must run
/// out together.
pub open spec fn match_segments(p: Seq<Seq<char>>, a: Seq<Seq<char>>) -> Option<
    Seq<(Seq<char>, Seq<char>)>,
>
    decreases p.len(),
{
    if p.len() == 0 || a.len() == 0 {
        if p.len() == 0 && a.len() == 0 {
            Some(Seq::empty())
        } else {
            None
        }
    } else if p[0] == seq!['*'] {
        Some(seq![(seq!['*'], join_spec(a, '/'))])
    } else if p[0].len() > 0 && p[0][0] == ':' {
        prepend_params(
            seq![(p[0].drop_first(), a[0])],
            match_segments(p.drop_first(), a.drop_first()),
        )
    } else if p[0] != a[0] {
        None
    } else {
        match_segments(p.drop_first(), a.drop_first())
    }
}

/// Outcome of matching `pattern` against `actual`: the captured parameters,
/// or `None` when the path does not match.
pub open spec fn path_match_spec(pattern: Seq<char>, actual: Seq<char>) -> Option<
    Seq<(Seq<char>, Seq<char>)>,
> {
    match_segments(segments(pattern), segments(actual))
}

/// The views of captured parameters.
pub open spec fn param_views(v: Seq<(String, String)>) -> Seq<(Seq<char>, Seq<char>)> {
    v.map_values(|p: (String, String)| (p.0@, p.1@))
}

/// The segments of a path.
fn path_segments(path: &str) -> (r: Vec<String>)
    ensures
        views(r@) == segments(path@),
{
    let t = trim(path, '/');
    let tv = chars_of(t.as_str());
    if tv.len() == 0 {
        let r: Vec<String> = Vec::new();
        assert(views(r@) =~= Seq::<Seq<char>>::empty());
        r
    } else {
        split_chars(&tv, '/')
    }
}

/// Whether `s` is the single character `*`.
fn is_star(s: &str) -> (r: bool)
    ensures
        r == (s@ == seq!['*']),
{
    let v = chars_of(s);
    let r = v.len() == 1 && v[0] == '*';
    proof {
        if r {
            assert(s@ =~= seq!['*']);
        }
    }
    r
}

/// Matches a path pattern against an actual path and returns the captured
/// parameters (`None` on mismatch). Leading and trailing `/` are ignored;
/// `/users` is exact, `/users/*` a prefix, `/users/:id` a parameter.
pub fn path_match(pattern: &str, actual: &str) -> (r: Option<Vec<(String, String)>>)
    ensures
        match r {
            Some(v) => path_match_spec(pattern@, actual@) == Some(param_views(v@)),
            None => path_match_spec(pattern@, actual@) is None,
        },
{
    let p = path_segments(pattern);
    let a = path_segments(actual);
    let ghost ps = views(p@);
    let ghost as_ = views(a@);
    let mut params: Vec<(String, String)> = Vec::new();
    let mut i: usize = 0;
    assert(ps.skip(0) == ps);
    assert(as_.skip(0) == as_);
    assert(param_views(params@) =~= Seq::<(Seq<char>, Seq<char>)>::empty());
    while i < p.len() && i < a.len()
        invariant
            ps == views(p@),
            as_ == views(a@),
            ps == segments(pattern@),
            as_ == segments(actual@),
            i <= p.len(),
            i <= a.len(),
            match_segments(ps, as_) == prepend_params(
                param_views(params@),
                match_segments(ps.skip(i as int), as_.skip(i as int)),
            ),
        decreases p.len() - i,
    {
        let ghost pr = ps.skip(i as int);
        let ghost ar = as_.skip(i as int);
        assert(pr[0] == ps[i as int]);
        assert(ar[0] == as_[i as int]);
        assert(pr.drop_first() == ps.skip(i + 1));
        assert(ar.drop_first() == as_.skip(i + 1));
        let pseg = chars_of(p[i].as_str());
        if is_star(p[i].as_str()) {
            let mut rest: Vec<String> = Vec::new();
            let mut k = i;
            while k < a.len()
                invariant
                    i <= k <= a.len(),
                    views(rest@) == as_.subrange(i as int, k as int),
                    as_ == views(a@),
                decreases a.len() - k,
            {
                let ghost before = views(rest@);
                rest.push(a[k].clone());
                assert(views(rest@) == before.push(as_[k as int]));
                assert(as_.subrange(i as int, k + 1) == as_.subrange(i as int, k as int).push(
                    as_[k as int],
                ));
                k += 1;
            }
            assert(views(rest@) == ar);
            let joined = join_strings(&rest, '/');
            let ghost before = param_views(params@);
            proof {
                reveal_strlit("*");
            }
            let star = "*".to_owned();
            assert(star@ == seq!['*']);
            params.push((star, joined));
            assert(param_views(params@) =~= before.push((seq!['*'], join_spec(ar, '/'))));
            assert(before.push((seq!['*'], join_spec(ar, '/'))) =~= before + seq![
                (seq!['*'], join_spec(ar, '/')),
            ]);
            return Some(params);
        }
        if pseg.len() > 0 && pseg[0] == ':' {
            let name = string_from_range(&pseg, 1, pseg.len());
            assert(name@ == ps[i as int].drop_first());
            let ghost before = param_views(params@);
            params.push((name, a[i].clone()));
            assert(param_views(params@) == before + seq![(ps[i as int].drop_first(), as_[i as int])]);
            assert(before + (seq![(ps[i as int].drop_first(), as_[i as int])]) == before.push(
                (ps[i as int].drop_first(), as_[i as int]),
            ));
            proof {
                match match_segments(ps.skip(i + 1), as_.skip(i + 1)) {
                    Some(rest) => {
                        assert(before + (seq![(ps[i as int].drop_first(), as_[i as int])] + rest)
                            == (before + seq![(ps[i as int].drop_first(), as_[i as int])]) + rest);
                    },
                    None => {},
                }
            }
        } else {
            if !str_eq(p[i].as_str(), a[i].as_str()) {
                return None;
            }
        }
        i += 1;
    }
    let ghost pr = ps.skip(i as int);
    let ghost ar = as_.skip(i as int);
    if i == p.len() && i == a.len() {
        assert(param_views(params@) + Seq::<(Seq<char>, Seq<char>)>::empty() == param_views(
            params@,
        ));
        Some(params)
    } else {
        None
    }
}

// ==================== methods and bodies ====================

/// Whether a rule's method admits the request method (`Any` admits all;
/// otherwise names compare up to ASCII case).
pub open spec fn method_matches(rule_method: HttpMethod, req_method: Seq<char>) -> bool {
    rule_method == HttpMethod::Any || eq_ignore_ascii_case(method_name(rule_method), req_method)
}

/// Whether a rule's method admits the request method.
pub fn method_match(rule_method: HttpMethod, req_method: &str) -> (r: bool)
    ensures
        r == method_matches(rule_method, req_method@),
{
    if rule_method == HttpMethod::Any {
        return true;
    }
    eq_ignore_case(rule_method.as_str(), req_method)
}

/// Whether the body satisfies the body condition: no condition (absent or
/// empty) always holds; otherwise the body must be valid UTF-8 containing it.
pub open spec fn body_matches(needle: Option<Seq<char>>, body: Seq<u8>) -> bool {
    match needle {
        None => true,
        Some(n) => n.len() == 0 || (valid_utf8(body) && contains_sub(decode_utf8(body), n)),
    }
}

/// Whether the body satisfies the body condition.
pub fn body_match(needle: Option<&str>, body: &[u8]) -> (r: bool)
    ensures
        r == body_matches(
            match needle {
                Some(n) => Some(n@),
                None => None,
            },
            body@,
        ),
{
    match needle {
        None => true,
        Some(n) => {
            if n.is_empty() {
                return true;
            }
            match utf8_text(body) {
                Some(text) => contains(text.as_str(), n),
                None => false,
            }
        },
    }
}

// ==================== whole rules ====================

/// A hit: the matched rule's id (captured parameters are not reported).
#[derive(Debug)]
pub struct MatchHit {
    pub rule_id: String,
    pub path_params: Vec<(String, String)>,
}

/// Whether a rule matches a request: the rule is enabled, its method admits
/// the request's, its path pattern matches, its header conditions pass
/// (names up to ASCII case), its query conditions pass (exact keys) and the
/// body condition holds.
pub open spec fn rule_matches(
    rule: MockRuleView,
    method: Seq<char>,
    path: Seq<char>,
    headers: Seq<(String, String)>,
    query: Seq<(String, String)>,
    body: Seq<u8>,
) -> bool {
    &&& rule.enabled
    &&& method_matches(rule.method, method)
    &&& path_match_spec(rule.path_pattern@, path) is Some
    &&& all_pass(rule.match_headers, headers, true)
    &&& all_pass(rule.match_query, query, false)
    &&& body_matches(
        match rule.match_body {
            Some(b) => Some(b@),
            None => None,
        },
        body,
    )
}

/// Matches one rule against a request (the path is already relative to any
/// base path). A hit carries the rule's id and no parameters.
pub fn match_rule(
    rule: &MockRule,
    method: &str,
    full_path: &str,
    headers: &[(String, String)],
    query: &[(String, String)],
    body: &[u8],
) -> (r: Option<MatchHit>)
    ensures
        r is Some <==> rule_matches(rule@, method@, full_path@, headers@, query@, body@),
        r matches Some(h) ==> h.rule_id == rule.id && h.path_params@.len() == 0,
{
    if !rule.enabled {
        return None;
    }
    if !method_match(rule.method, method) {
        return None;
    }
    match path_match(rule.path_pattern.as_str(), full_path) {
        None => {
            return None;
        },
        Some(_) => {},
    }
    if !conds_all_pass(rule.match_headers.as_slice(), headers, true) {
        return None;
    }
    if !conds_all_pass(rule.match_query.as_slice(), query, false) {
        return None;
    }
    let body_ok = match &rule.match_body {
        Some(b) => body_match(Some(b.as_str()), body),
        None => body_match(None, body),
    };
    if !body_ok {
        return None;
    }
    Some(MatchHit { rule_id: rule.id.clone(), path_params: Vec::new() })
}

// ==================== laws ====================

/// Slashes around a path do not change how patterns match it, nor do
/// slashes around a pattern.
pub proof fn law_outer_slashes_ignored(pattern: Seq<char>, actual: Seq<char>)
    ensures
        path_match_spec(pattern, seq!['/'] + actual + seq!['/']) == path_match_spec(pattern, actual),
        path_match_spec(seq!['/'] + pattern + seq!['/'], actual) == path_match_spec(pattern, actual),
{
    lemma_trim_outer(actual, '/');
    lemma_trim_outer(pattern, '/');
}

/// No segment is `*` or a `:name` placeholder.
pub open spec fn literal_segments(p: Seq<Seq<char>>) -> bool {
    forall|i: int| 0 <= i < p.len() ==> p[i] != seq!['*'] && !(p[i].len() > 0 && p[i][0] == ':')
}

proof fn lemma_literal_matches_itself(p: Seq<Seq<char>>)
    requires
        literal_segments(p),
    ensures
        match_segments(p, p) == Some(Seq::<(Seq<char>, Seq<char>)>::empty()),
    decreases p.len(),
{
    if p.len() > 0 {
        assert(literal_segments(p.drop_first())) by {
            assert forall|i: int| 0 <= i < p.drop_first().len() implies p.drop_first()[i] != seq!['*'] && !(
            p.drop_first()[i].len() > 0 && p.drop_first()[i][0] == ':') by {
                assert(p.drop_first()[i] == p[i + 1]);
            }
        }
        lemma_literal_matches_itself(p.drop_first());
    }
}

/// A pattern without `*` and `:name` segments matches its own text,
/// capturing nothing.
pub proof fn law_literal_pattern_matches_itself(pattern: Seq<char>)
    requires
        literal_segments(segments(pattern)),
    ensures
        path_match_spec(pattern, pattern) == Some(Seq::<(Seq<char>, Seq<char>)>::empty()),
{
    lemma_literal_matches_itself(segments(pattern));
}

proof fn lemma_literal_match_is_equality(p: Seq<Seq<char>>, a: Seq<Seq<char>>)
    requires
        literal_segments(p),
    ensures
        match_segments(p, a) is Some <==> a == p,
    decreases p.len(),
{
    if p.len() > 0 && a.len() > 0 {
        assert(literal_segments(p.drop_first())) by {
            assert forall|i: int| 0 <= i < p.drop_first().len() implies p.drop_first()[i] != seq!['*'] && !(
            p.drop_first()[i].len() > 0 && p.drop_first()[i][0] == ':') by {
                assert(p.drop_first()[i] == p[i + 1]);
            }
        }
        assert(p[0] != seq!['*'] && !(p[0].len() > 0 && p[0][0] == ':'));
        lemma_literal_match_is_equality(p.drop_first(), a.drop_first());
        if a == p {
            assert(a.drop_first() == p.drop_first());
        }
        if p[0] == a[0] && a.drop_first() == p.drop_first() {
            assert(a =~= p) by {
                assert forall|i: int| 0 <= i < a.len() implies a[i] == p[i] by {
                    if i > 0 {
                        assert(a[i] == a.drop_first()[i - 1]);
                        assert(p[i] == p.drop_first()[i - 1]);
                    }
                }
            }
        }
    } else if p.len() != a.len() {
        assert(a.len() != p.len());
    } else {
        assert(a =~= p);
    }
}

/// A pattern without `*` and `:name` segments matches a path exactly when
/// both have the same segments (a literal segment never matches a longer or
/// shorter one: `/users` does not match `/users2`, nor `/user` `/users`);
/// it then captures nothing.
pub proof fn law_literal_pattern_is_exact(pattern: Seq<char>, actual: Seq<char>)
    requires
        literal_segments(segments(pattern)),
    ensures
        path_match_spec(pattern, actual) is Some <==> segments(actual) == segments(pattern),
        path_match_spec(pattern, actual) is Some ==> path_match_spec(pattern, actual) == Some(
            Seq::<(Seq<char>, Seq<char>)>::empty(),
        ),
{
    lemma_literal_match_is_equality(segments(pattern), segments(actual));
    if segments(actual) == segments(pattern) {
        lemma_literal_matches_itself(segments(pattern));
    }
}

/// A `:name` placeholder segment.
pub open spec fn is_placeholder(seg: Seq<char>) -> bool {
    seg.len() > 0 && seg[0] == ':'
}

/// Segment `i` of the path fits segment `i` of the pattern: a placeholder
/// fits anything, a literal segment only itself.
pub open spec fn fits_at(p: Seq<Seq<char>>, a: Seq<Seq<char>>, i: int) -> bool {
    is_placeholder(p[i]) || a[i] == p[i]
}

/// Capture `c` is placeholder `i` of the pattern with the path segment at `i`.
pub open spec fn captured_at(p: Seq<Seq<char>>, a: Seq<Seq<char>>, c: (Seq<char>, Seq<char>), i: int) -> bool {
    0 <= i < p.len() && i < a.len() && is_placeholder(p[i]) && c == (p[i].drop_first(), a[i])
}

/// Every capture in `r` is a placeholder of the pattern with the path
/// segment at its place.
pub open spec fn captures_placeholders(p: Seq<Seq<char>>, a: Seq<Seq<char>>, r: Seq<(Seq<char>, Seq<char>)>) -> bool {
    forall|k: int| 0 <= k < r.len() ==> #[trigger] is_capture(p, a, r[k])
}

/// `c` is some placeholder of the pattern with the path segment at its place.
pub open spec fn is_capture(p: Seq<Seq<char>>, a: Seq<Seq<char>>, c: (Seq<char>, Seq<char>)) -> bool {
    exists|i: int| #[trigger] captured_at(p, a, c, i)
}

proof fn lemma_captures_shift(
    p: Seq<Seq<char>>,
    a: Seq<Seq<char>>,
    r1: Seq<(Seq<char>, Seq<char>)>,
    r: Seq<(Seq<char>, Seq<char>)>,
    head: bool,
)
    requires
        p.len() > 0,
        a.len() > 0,
        captures_placeholders(p.drop_first(), a.drop_first(), r1),
        head ==> is_placeholder(p[0]) && r == seq![(p[0].drop_first(), a[0])] + r1,
        !head ==> r == r1,
    ensures
        captures_placeholders(p, a, r),
{
    let p1 = p.drop_first();
    let a1 = a.drop_first();
    assert forall|k: int| 0 <= k < r.len() implies #[trigger] is_capture(p, a, r[k]) by {
        if head && k == 0 {
            assert(r[0] == (p[0].drop_first(), a[0]));
            assert(captured_at(p, a, r[k], 0));
        } else {
            let k1 = if head { k - 1 } else { k };
            assert(r[k] == r1[k1]);
            assert(is_capture(p1, a1, r1[k1]));
            let j = choose|j: int| #[trigger] captured_at(p1, a1, r1[k1], j);
            assert(p1[j] == p[j + 1] && a1[j] == a[j + 1]);
            assert(captured_at(p, a, r[k], j + 1));
        }
    }
}

proof fn lemma_placeholder_match(p: Seq<Seq<char>>, a: Seq<Seq<char>>)
    requires
        forall|i: int| 0 <= i < p.len() ==> p[i] != seq!['*'],
    ensures
        match_segments(p, a) is Some <==> (a.len() == p.len() && forall|i: int| 0 <= i < p.len() ==> #[trigger] fits_at(p, a, i)),
        match_segments(p, a) matches Some(r) ==> r.len() <= p.len() && captures_placeholders(p, a, r),
    decreases p.len(),
{
    if p.len() == 0 || a.len() == 0 {
        if p.len() != a.len() {
            assert(a.len() != p.len());
        }
    } else {
        let p1 = p.drop_first();
        let a1 = a.drop_first();
        assert forall|i: int| 0 <= i < p1.len() implies p1[i] != seq!['*'] by {
            assert(p1[i] == p[i + 1]);
        }
        assert(p[0] != seq!['*']);
        lemma_placeholder_match(p1, a1);
        let rec = match_segments(p1, a1);
        let all = a.len() == p.len() && forall|i: int| 0 <= i < p.len() ==> #[trigger] fits_at(p, a, i);
        let all1 = a1.len() == p1.len() && forall|i: int| 0 <= i < p1.len() ==> #[trigger] fits_at(p1, a1, i);
        if all {
            assert forall|i: int| 0 <= i < p1.len() implies #[trigger] fits_at(p1, a1, i) by {
                assert(fits_at(p, a, i + 1));
                assert(p1[i] == p[i + 1] && a1[i] == a[i + 1]);
            }
            assert(fits_at(p, a, 0));
        }
        if all1 && fits_at(p, a, 0) {
            assert forall|i: int| 0 <= i < p.len() implies #[trigger] fits_at(p, a, i) by {
                if i > 0 {
                    assert(fits_at(p1, a1, i - 1));
                    assert(p1[i - 1] == p[i] && a1[i - 1] == a[i]);
                }
            }
        }
        if !fits_at(p, a, 0) {
            assert(!all);
        }
        if is_placeholder(p[0]) {
            match rec {
                Some(r1) => {
                    let r = seq![(p[0].drop_first(), a[0])] + r1;
                    assert(match_segments(p, a) == Some(r));
                    lemma_captures_shift(p, a, r1, r, true);
                },
                None => {},
            }
        } else {
            match rec {
                Some(r1) => {
                    if p[0] == a[0] {
                        assert(match_segments(p, a) == rec);
                        lemma_captures_shift(p, a, r1, r1, false);
                    }
                },
                None => {},
            }
        }
    }
}

/// A pattern without `*` matches a path exactly when both have as many
/// segments and every literal segment of the pattern equals the path segment
/// at its place; each captured parameter is then a placeholder of the
/// pattern, named without its `:`, with the path segment at its place
/// (`/users/:id` against `/users/42` captures `id = 42`).
pub proof fn law_placeholder_pattern(pattern: Seq<char>, actual: Seq<char>)
    requires
        forall|i: int| 0 <= i < segments(pattern).len() ==> segments(pattern)[i] != seq!['*'],
    ensures
        path_match_spec(pattern, actual) is Some <==> (segments(actual).len() == segments(pattern).len() && forall|i: int|
            0 <= i < segments(pattern).len() ==> #[trigger] fits_at(segments(pattern), segments(actual), i)),
        path_match_spec(pattern, actual) matches Some(r) ==> captures_placeholders(segments(pattern), segments(actual), r),
{
    lemma_placeholder_match(segments(pattern), segments(actual));
}

proof fn lemma_wildcard_match(q: Seq<Seq<char>>, a: Seq<Seq<char>>)
    requires
        literal_segments(q),
    ensures
        match_segments(q.push(seq!['*']), a) is Some <==> (a.len() > q.len() && a.take(q.len() as int) == q),
        match_segments(q.push(seq!['*']), a) is Some ==> match_segments(q.push(seq!['*']), a) == Some(
            seq![(seq!['*'], join_spec(a.skip(q.len() as int), '/'))],
        ),
    decreases q.len(),
{
    let p = q.push(seq!['*']);
    if q.len() == 0 {
        assert(p[0] == seq!['*']);
        assert(a.take(0) =~= q);
        assert(a.skip(0) =~= a);
    } else if a.len() == 0 {
    } else {
        let q1 = q.drop_first();
        assert(literal_segments(q1)) by {
            assert forall|i: int| 0 <= i < q1.len() implies q1[i] != seq!['*'] && !(q1[i].len() > 0 && q1[i][0] == ':') by {
                assert(q1[i] == q[i + 1]);
            }
        }
        assert(p[0] == q[0]);
        assert(q[0] != seq!['*'] && !(q[0].len() > 0 && q[0][0] == ':'));
        assert(p.drop_first() =~= q1.push(seq!['*']));
        let a1 = a.drop_first();
        lemma_wildcard_match(q1, a1);
        if a.len() > q.len() && a.take(q.len() as int) == q {
            assert(a[0] == a.take(q.len() as int)[0]);
            assert(a1.take(q1.len() as int) =~= q1) by {
                assert forall|i: int| 0 <= i < q1.len() implies a1.take(q1.len() as int)[i] == q1[i] by {
                    assert(a.take(q.len() as int)[i + 1] == q[i + 1]);
                }
            }
        }
        if q[0] == a[0] && a1.len() > q1.len() && a1.take(q1.len() as int) == q1 {
            assert(a.take(q.len() as int) =~= q) by {
                assert forall|i: int| 0 <= i < q.len() implies a.take(q.len() as int)[i] == q[i] by {
                    if i > 0 {
                        assert(a1.take(q1.len() as int)[i - 1] == q1[i - 1]);
                    }
                }
            }
        }
        if a.take(q.len() as int) == q && a.len() > q.len() {
            assert(a.take(q.len() as int)[0] == a[0]);
        }
        if a.len() >= q.len() {
            assert(a1.skip(q1.len() as int) =~= a.skip(q.len() as int));
        }
    }
}

/// A pattern of literal segments followed by `*` matches a path exactly when
/// the path starts with those segments and has at least one more; it then
/// captures, under the name `*`, the remaining segments joined with `/`
/// (`/users/*` against `/users/1/posts` captures `* = 1/posts`).
pub proof fn law_wildcard_pattern(pattern: Seq<char>, actual: Seq<char>, q: Seq<Seq<char>>)
    requires
        segments(pattern) == q.push(seq!['*']),
        literal_segments(q),
    ensures
        path_match_spec(pattern, actual) is Some <==> (segments(actual).len() > q.len() && segments(actual).take(
            q.len() as int,
        ) == q),
        path_match_spec(pattern, actual) is Some ==> path_match_spec(pattern, actual) == Some(
            seq![(seq!['*'], join_spec(segments(actual).skip(q.len() as int), '/'))],
        ),
{
    lemma_wildcard_match(q, segments(actual));
}

/// How one condition judges a value: a disabled condition lets everything
/// through; `exists` wants a present, non-empty value; an exact condition
/// passes its own value and nothing that differs from it (a missing value
/// counting as empty); a `contains` condition passes any value that has its
/// text at the front, middle or end.
pub proof fn law_condition_kinds(cond: MockMatchCondition, v: Seq<char>, x: Seq<char>, y: Seq<char>)
    ensures
        !cond.enabled ==> cond_passes(cond, Some(v)) && cond_passes(cond, None),
        cond.enabled && kind_is(cond, "exists"@) ==> {
            &&& !cond_passes(cond, None)
            &&& !cond_passes(cond, Some(Seq::empty()))
            &&& (v.len() > 0 ==> cond_passes(cond, Some(v)))
        },
        cond.enabled && kind_is(cond, "exact"@) ==> {
            &&& cond_passes(cond, Some(cond.value@))
            &&& (v != cond.value@ ==> !cond_passes(cond, Some(v)))
            &&& (cond_passes(cond, None) <==> cond.value@.len() == 0)
        },
        cond.enabled && kind_is(cond, "contains"@) ==> cond_passes(cond, Some(x + cond.value@ + y)),
{
    reveal_strlit("exists");
    reveal_strlit("exact");
    reveal_strlit("contains");
    reveal_strlit("regex");
    assert("exists"@.len() != "contains"@.len() && "exact"@.len() != "contains"@.len());
    assert("exact"@[0] != "regex"@[0] && "exact"@[2] != "exists"@[2]);
    if cond.value@.len() == 0 {
        assert(cond.value@ =~= Seq::<char>::empty());
    }
    if cond.enabled && kind_is(cond, "contains"@) {
        let t = x + cond.value@ + y;
        assert(t.subrange(x.len() as int, (x.len() + cond.value@.len()) as int) =~= cond.value@);
        assert(crate::text::occurs_at(t, cond.value@, x.len() as int));
    }
}

} // verus!
