//! Network helpers: decimal numbers in text, the API port setting, and
//! reading the process ids that hold a port out of `lsof` / `netstat`
//! output (running those tools and killing processes is the caller's
//! business).

use vstd::prelude::*;

use crate::auth::{is_whitespace, is_ws, split_whitespace, ws_tokens};
use crate::constants::DEFAULT_API_PORT;
use crate::text::{chars_of, contains, contains_sub, split_chars, split_spec, string_from_range, views, concat};

verus! {

broadcast use vstd::string::group_string_axioms;

// ======================== decimal numbers ========================

/// `c` is an ASCII digit.
pub open spec fn is_digit(c: char) -> bool {
    '0' <= c <= '9'
}

/// Value of a digit.
pub open spec fn digit_value(c: char) -> nat {
    (c as u32 - '0' as u32) as nat
}

/// Value of a string of digits.
pub open spec fn digits_value(s: Seq<char>) -> nat
    decreases s.len(),
{
    if s.len() == 0 {
        0
    } else {
        digits_value(s.drop_last()) * 10 + digit_value(s.last())
    }
}

/// Every character of `s` is a digit.
pub open spec fn all_digits(s: Seq<char>) -> bool {
    forall|i: int| 0 <= i < s.len() ==> is_digit(#[trigger] s[i])
}

/// The digits part of a number: without a leading `+`.
pub open spec fn uint_body(s: Seq<char>) -> Seq<char> {
    if s.len() > 0 && s[0] == '+' {
        s.drop_first()
    } else {
        s
    }
}

/// What `str::parse` gives for an unsigned integer type whose largest value
/// is `max`: an optional `+`, then at least one digit, with a value not above `max`.
pub open spec fn parsed_uint(s: Seq<char>, max: nat) -> Option<nat> {
    if uint_body(s).len() > 0 && all_digits(uint_body(s)) && digits_value(uint_body(s)) <= max {
        Some(digits_value(uint_body(s)))
    } else {
        None
    }
}

/// Parses an unsigned decimal number not above `max` (see [`parsed_uint`]).
pub fn parse_uint(s: &str, max: u64) -> (r: Option<u64>)
    requires
        max <= 0x8000_0000_0000_0000,
    ensures
        match r {
            Some(n) => parsed_uint(s@, max as nat) == Some(n as nat),
            None => parsed_uint(s@, max as nat) is None,
        },
{
    let v = chars_of(s);
    let start: usize = if v.len() > 0 && v[0] == '+' { 1 } else { 0 };
    let ghost body = uint_body(s@);
    proof {
        assert(body =~= v@.subrange(start as int, v@.len() as int));
    }
    if start >= v.len() {
        return None;
    }
    let mut acc: u128 = 0;
    let mut i = start;
    while i < v.len()
        invariant
            start <= i <= v@.len(),
            start < v@.len(),
            max <= 0x8000_0000_0000_0000,
            v@ == s@,
            body == uint_body(s@),
            body =~= v@.subrange(start as int, v@.len() as int),
            forall|j: int| start <= j < i ==> is_digit(#[trigger] v@[j]),
            acc as int == if digits_value(v@.subrange(start as int, i as int)) <= max {
                digits_value(v@.subrange(start as int, i as int)) as int
            } else {
                max + 1
            },
        decreases v.len() - i,
    {
        let c = v[i];
        if !('0' <= c && c <= '9') {
            proof {
                assert(body[i - start] == v@[i as int]);
                assert(!is_digit(body[i - start]));
                assert(!all_digits(body));
            }
            return None;
        }
        let d = (c as u32 - '0' as u32) as u128;
        proof {
            let pre = v@.subrange(start as int, i as int);
            assert(v@.subrange(start as int, i + 1).drop_last() =~= pre);
            assert(v@.subrange(start as int, i + 1).last() == c);
        }
        if acc > max as u128 {
        } else {
            let n = acc * 10 + d;
            acc = if n <= max as u128 { n } else { max as u128 + 1 };
        }
        i += 1;
    }
    proof {
        assert(v@.subrange(start as int, v@.len() as int) =~= body);
        assert forall|j: int| 0 <= j < body.len() implies is_digit(#[trigger] body[j]) by {
            assert(body[j] == v@[start + j]);
        }
        assert(all_digits(body));
    }
    if acc > max as u128 {
        None
    } else {
        Some(acc as u64)
    }
}

/// Decimal digits of `n`.
pub open spec fn decimal(n: nat) -> Seq<char>
    decreases n,
{
    if n < 10 {
        seq![(n + '0' as nat) as char]
    } else {
        decimal(n / 10).push(((n % 10) + '0' as nat) as char)
    }
}

/// The decimal text of `n`.
pub fn decimal_string(n: u64) -> (r: String)
    ensures
        r@ == decimal(n as nat),
    decreases n,
{
    let d = ((n % 10) as u32 + '0' as u32) as u8 as char;
    if n < 10 {
        let mut s = String::new();
        crate::text::push_char(&mut s, d);
        assert(s@ =~= decimal(n as nat));
        s
    } else {
        let mut s = decimal_string(n / 10);
        crate::text::push_char(&mut s, d);
        s
    }
}

// ======================== the API port ========================

/// What `str::parse::<i64>` gives: an optional sign (`+` or `-`), then at
/// least one digit, with a value within the range of `i64`.
pub open spec fn parsed_i64(s: Seq<char>) -> Option<int> {
    if s.len() > 0 && s[0] == '-' {
        let body = s.drop_first();
        if body.len() > 0 && all_digits(body) && digits_value(body) <= 0x8000_0000_0000_0000 {
            Some(-(digits_value(body) as int))
        } else {
            None
        }
    } else {
        match parsed_uint(s, 0x7fff_ffff_ffff_ffff) {
            Some(n) => Some(n as int),
            None => None,
        }
    }
}

/// Parses a signed 64-bit decimal number (see [`parsed_i64`]).
pub fn parse_i64(s: &str) -> (r: Option<i64>)
    ensures
        match r {
            Some(n) => parsed_i64(s@) == Some(n as int),
            None => parsed_i64(s@) is None,
        },
{
    let v = chars_of(s);
    if v.len() > 0 && v[0] == '-' {
        let rest = string_from_range(&v, 1, v.len());
        proof {
            assert(rest@ =~= s@.drop_first());
        }
        if rest.as_str().is_empty() {
            return None;
        }
        let rv = chars_of(rest.as_str());
        if rv[0] == '+' {
            proof {
                assert(!is_digit(rest@[0]));
            }
            return None;
        }
        proof {
            assert(uint_body(rest@) == rest@);
        }
        match parse_uint(rest.as_str(), 0x8000_0000_0000_0000) {
            Some(n) => {
                if n == 0x8000_0000_0000_0000 {
                    Some(i64::MIN)
                } else {
                    Some(-(n as i64))
                }
            },
            None => None,
        }
    } else {
        match parse_uint(s, 0x7fff_ffff_ffff_ffff) {
            Some(n) => Some(n as i64),
            None => None,
        }
    }
}

/// The API port an environment value selects: a valid port number, else the default.
pub open spec fn api_port_spec(value: Option<Seq<char>>) -> u16 {
    match value {
        Some(v) => match parsed_uint(v, 65_535) {
            Some(p) => p as u16,
            None => DEFAULT_API_PORT,
        },
        None => DEFAULT_API_PORT,
    }
}

/// The REST API port, from the value of the `API_PORT` environment variable
/// if there is one.
pub fn api_port(value: Option<&str>) -> (r: u16)
    ensures
        r == api_port_spec(match value { Some(v) => Some(v@), None => None }),
{
    match value {
        Some(v) => match parse_uint(v, 65_535) {
            Some(p) => p as u16,
            None => DEFAULT_API_PORT,
        },
        None => DEFAULT_API_PORT,
    }
}

// ======================== white space ========================

/// Number of leading white-space characters.
pub open spec fn lead_ws(s: Seq<char>) -> nat
    decreases s.len(),
{
    if s.len() > 0 && is_ws(s[0]) {
        1 + lead_ws(s.drop_first())
    } else {
        0
    }
}

/// Number of trailing white-space characters.
pub open spec fn trail_ws(s: Seq<char>) -> nat
    decreases s.len(),
{
    if s.len() > 0 && is_ws(s.last()) {
        1 + trail_ws(s.drop_last())
    } else {
        0
    }
}

/// `s` without leading and trailing white space (`str::trim`).
pub open spec fn trim_ws_spec(s: Seq<char>) -> Seq<char> {
    let t = s.subrange(lead_ws(s) as int, s.len() as int);
    t.subrange(0, t.len() - trail_ws(t))
}

proof fn lemma_lead_ws(s: Seq<char>)
    ensures
        lead_ws(s) <= s.len(),
        forall|j: int| 0 <= j < lead_ws(s) ==> is_ws(#[trigger] s[j]),
        lead_ws(s) < s.len() ==> !is_ws(s[lead_ws(s) as int]),
    decreases s.len(),
{
    if s.len() > 0 && is_ws(s[0]) {
        lemma_lead_ws(s.drop_first());
        assert forall|j: int| 0 <= j < lead_ws(s) implies is_ws(#[trigger] s[j]) by {
            if j > 0 {
                assert(s[j] == s.drop_first()[j - 1]);
            }
        }
    }
}

proof fn lemma_trail_ws(s: Seq<char>)
    ensures
        trail_ws(s) <= s.len(),
        forall|j: int| s.len() - trail_ws(s) <= j < s.len() ==> is_ws(#[trigger] s[j]),
        trail_ws(s) < s.len() ==> !is_ws(s[s.len() - trail_ws(s) - 1]),
    decreases s.len(),
{
    if s.len() > 0 && is_ws(s.last()) {
        lemma_trail_ws(s.drop_last());
        assert forall|j: int| s.len() - trail_ws(s) <= j < s.len() implies is_ws(#[trigger] s[j]) by {
            if j < s.len() - 1 {
                assert(s[j] == s.drop_last()[j]);
            }
        }
    }
}

/// `s` without leading and trailing white space.
pub fn trim_ws(s: &str) -> (r: String)
    ensures
        r@ == trim_ws_spec(s@),
{
    let v = chars_of(s);
    proof {
        lemma_lead_ws(s@);
    }
    let mut a: usize = 0;
    while a < v.len() && is_whitespace(v[a])
        invariant
            a <= lead_ws(s@),
            v@ == s@,
            lead_ws(s@) <= s@.len(),
            forall|j: int| 0 <= j < lead_ws(s@) ==> is_ws(#[trigger] s@[j]),
            lead_ws(s@) < s@.len() ==> !is_ws(s@[lead_ws(s@) as int]),
        decreases v.len() - a,
    {
        a += 1;
    }
    let ghost t = s@.subrange(a as int, s@.len() as int);
    proof {
        lemma_trail_ws(t);
    }
    let mut b: usize = 0;
    while b < v.len() - a && is_whitespace(v[v.len() - 1 - b])
        invariant
            a == lead_ws(s@),
            a <= v.len(),
            v@ == s@,
            t == s@.subrange(a as int, s@.len() as int),
            b <= trail_ws(t),
            trail_ws(t) <= t.len(),
            forall|j: int| t.len() - trail_ws(t) <= j < t.len() ==> is_ws(#[trigger] t[j]),
            trail_ws(t) < t.len() ==> !is_ws(t[t.len() - trail_ws(t) - 1]),
        decreases v.len() - a - b,
    {
        proof {
            assert(v@[v.len() - 1 - b] == t[t.len() - 1 - b]);
        }
        b += 1;
    }
    proof {
        if b < t.len() {
            assert(v@[v.len() - 1 - b] == t[t.len() - 1 - b]);
        }
        assert(t.subrange(0, t.len() - b) =~= v@.subrange(a as int, v.len() - b));
    }
    string_from_range(&v, a, v.len() - b)
}

// ======================== port holders ========================

/// The non-empty trimmed lines, in order.
pub open spec fn trimmed_lines(lines: Seq<Seq<char>>) -> Seq<Seq<char>>
    decreases lines.len(),
{
    if lines.len() == 0 {
        Seq::empty()
    } else {
        let r = trimmed_lines(lines.drop_last());
        let t = trim_ws_spec(lines.last());
        if t.len() > 0 {
            r.push(t)
        } else {
            r
        }
    }
}

/// The process ids `lsof -ti :port` printed: one per non-empty line.
pub open spec fn lsof_pid_list(out: Seq<char>) -> Seq<Seq<char>> {
    trimmed_lines(split_spec(out, '\n'))
}

/// The process ids in the output of `lsof -ti :port`.
pub fn lsof_pids(out: &str) -> (r: Vec<String>)
    ensures
        views(r@) == lsof_pid_list(out@),
{
    let v = chars_of(out);
    let lines = split_chars(&v, '\n');
    let mut pids: Vec<String> = Vec::new();
    let mut i: usize = 0;
    while i < lines.len()
        invariant
            i <= lines@.len(),
            views(lines@) == split_spec(out@, '\n'),
            views(pids@) == trimmed_lines(views(lines@).take(i as int)),
        decreases lines.len() - i,
    {
        proof {
            assert(views(lines@).take(i + 1).drop_last() =~= views(lines@).take(i as int));
            assert(views(lines@).take(i + 1).last() == lines@[i as int]@);
        }
        let t = trim_ws(lines[i].as_str());
        if !t.as_str().is_empty() {
            let ghost before = views(pids@);
            pids.push(t);
            proof {
                assert(views(pids@) =~= before.push(trim_ws_spec(lines@[i as int]@)));
            }
        }
        i += 1;
    }
    proof {
        assert(views(lines@).take(lines@.len() as int) =~= views(lines@));
    }
    pids
}

/// A `netstat -ano` line names a process listening on `port`: it says
/// `LISTENING`, mentions `:port`, and ends in a process id.
pub open spec fn listening_pid(line: Seq<char>, port: u16) -> Option<Seq<char>> {
    let t = trim_ws_spec(line);
    let toks = ws_tokens(t);
    if contains_sub(t, "LISTENING"@) && contains_sub(t, seq![':'] + decimal(port as nat)) && toks.len() > 0
        && parsed_uint(toks.last(), u32::MAX as nat) is Some {
        Some(toks.last())
    } else {
        None
    }
}

/// The distinct process ids listening on `port`, in order of appearance.
pub open spec fn netstat_pid_list(lines: Seq<Seq<char>>, port: u16) -> Seq<Seq<char>>
    decreases lines.len(),
{
    if lines.len() == 0 {
        Seq::empty()
    } else {
        let r = netstat_pid_list(lines.drop_last(), port);
        match listening_pid(lines.last(), port) {
            Some(p) => if r.contains(p) {
                r
            } else {
                r.push(p)
            },
            None => r,
        }
    }
}

/// The distinct process ids that `netstat -ano` output shows listening on `port`.
pub fn netstat_pids(out: &str, port: u16) -> (r: Vec<String>)
    ensures
        views(r@) == netstat_pid_list(split_spec(out@, '\n'), port),
{
    let v = chars_of(out);
    let lines = split_chars(&v, '\n');
    let digits = decimal_string(port as u64);
    let pat = concat(":", digits.as_str());
    proof {
        reveal_strlit(":");
        reveal_strlit("LISTENING");
        assert(pat@ =~= seq![':'] + decimal(port as nat));
    }
    let mut pids: Vec<String> = Vec::new();
    let mut i: usize = 0;
    while i < lines.len()
        invariant
            i <= lines@.len(),
            views(lines@) == split_spec(out@, '\n'),
            pat@ == seq![':'] + decimal(port as nat),
            views(pids@) == netstat_pid_list(views(lines@).take(i as int), port),
        decreases lines.len() - i,
    {
        proof {
            assert(views(lines@).take(i + 1).drop_last() =~= views(lines@).take(i as int));
            assert(views(lines@).take(i + 1).last() == lines@[i as int]@);
        }
        let t = trim_ws(lines[i].as_str());
        if contains(t.as_str(), "LISTENING") && contains(t.as_str(), pat.as_str()) {
            let parts = split_whitespace(t.as_str());
            if parts.len() > 0 {
                let last = &parts[parts.len() - 1];
                proof {
                    assert(views(parts@).last() == last@);
                }
                if parse_uint(last.as_str(), 0xffff_ffff).is_some() {
                    let mut seen = false;
                    let mut k: usize = 0;
                    while k < pids.len()
                        invariant
                            k <= pids@.len(),
                            seen == exists|j: int| 0 <= j < k && pids@[j]@ == last@,
                        decreases pids.len() - k,
                    {
                        if crate::text::str_eq(pids[k].as_str(), last.as_str()) {
                            seen = true;
                        }
                        k += 1;
                    }
                    proof {
                        if seen {
                            let j = choose|j: int| 0 <= j < pids@.len() && pids@[j]@ == last@;
                            assert(views(pids@)[j] == last@);
                        }
                        if views(pids@).contains(last@) {
                            let j = choose|j: int| 0 <= j < views(pids@).len() && views(pids@)[j] == last@;
                            assert(pids@[j]@ == last@);
                        }
                    }
                    if !seen {
                        let ghost before = views(pids@);
                        pids.push(last.clone());
                        proof {
                            assert(views(pids@) =~= before.push(last@));
                        }
                    }
                }
            }
        }
        i += 1;
    }
    proof {
        assert(views(lines@).take(lines@.len() as int) =~= views(lines@));
    }
    pids
}

// ======================== laws ========================

/// Every listed `lsof` process id is a non-empty text without surrounding
/// white space.
pub proof fn law_trimmed_lines_nonempty(lines: Seq<Seq<char>>)
    ensures
        forall|i: int| 0 <= i < trimmed_lines(lines).len() ==> #[trigger] trimmed_lines(lines)[i].len() > 0,
    decreases lines.len(),
{
    if lines.len() > 0 {
        law_trimmed_lines_nonempty(lines.drop_last());
        let r = trimmed_lines(lines.drop_last());
        let t = trim_ws_spec(lines.last());
        if t.len() > 0 {
            assert forall|i: int| 0 <= i < r.push(t).len() implies #[trigger] r.push(t)[i].len() > 0 by {
                if i < r.len() {
                    assert(r.push(t)[i] == r[i]);
                }
            }
        }
    }
}

/// The `netstat` process ids are listed once each.
pub proof fn law_netstat_pids_distinct(lines: Seq<Seq<char>>, port: u16)
    ensures
        forall|i: int, j: int|
            0 <= i < j < netstat_pid_list(lines, port).len() ==> netstat_pid_list(lines, port)[i]
                != netstat_pid_list(lines, port)[j],
    decreases lines.len(),
{
    if lines.len() > 0 {
        law_netstat_pids_distinct(lines.drop_last(), port);
        let r = netstat_pid_list(lines.drop_last(), port);
        match listening_pid(lines.last(), port) {
            Some(p) => {
                if !r.contains(p) {
                    assert forall|i: int, j: int| 0 <= i < j < r.push(p).len() implies r.push(p)[i] != r.push(p)[j] by {
                        if j == r.len() {
                            assert(r[i] != p);
                        }
                    }
                }
            },
            None => {},
        }
    }
}

/// Decimal text reads back as the number it was made from.
pub proof fn law_decimal_reads_back(n: nat)
    ensures
        decimal(n).len() > 0,
        forall|i: int| 0 <= i < decimal(n).len() ==> is_digit(#[trigger] decimal(n)[i]),
        digits_value(decimal(n)) == n,
    decreases n,
{
    if n < 10 {
        let c = (n + '0' as nat) as char;
        assert(c as u32 == n + 48);
        assert(decimal(n) == seq![c]);
        assert(decimal(n).drop_last() =~= Seq::<char>::empty());
        assert(digits_value(Seq::<char>::empty()) == 0);
        assert(digit_value(c) == n);
        assert(digits_value(decimal(n)) == digits_value(decimal(n).drop_last()) * 10 + digit_value(decimal(n).last()));
    } else {
        law_decimal_reads_back(n / 10);
        let d = decimal(n / 10);
        assert(decimal(n).drop_last() =~= d);
        let c = ((n % 10) + '0' as nat) as char;
        assert(decimal(n).last() == c);
        assert(c as u32 == (n % 10) + 48);
        assert(digit_value(c) == n % 10);
        assert(n == (n / 10) * 10 + n % 10);
        assert(digits_value(decimal(n)) == digits_value(decimal(n).drop_last()) * 10 + digit_value(decimal(n).last()));
        assert forall|i: int| 0 <= i < decimal(n).len() implies is_digit(#[trigger] decimal(n)[i]) by {
            if i < d.len() {
                assert(decimal(n)[i] == d[i]);
            }
        }
    }
}

} // verus!
