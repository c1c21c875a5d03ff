//! Character-level string helpers with exact specifications.
//!
//! Strings are reasoned about through their `Seq<char>` views; every helper
//! here states its result over those views.

use vstd::prelude::*;

verus! {

broadcast use vstd::string::group_string_axioms;

// ==================== specifications ====================

/// `p` is a prefix of `s`.
pub open spec fn has_prefix(s: Seq<char>, p: Seq<char>) -> bool {
    p.len() <= s.len() && s.subrange(0, p.len() as int) == p
}

/// `needle` occurs in `hay` starting at index `i`.
pub open spec fn occurs_at(hay: Seq<char>, needle: Seq<char>, i: int) -> bool {
    0 <= i && i + needle.len() <= hay.len() && hay.subrange(i, i + needle.len()) == needle
}

/// `needle` occurs somewhere in `hay` (the empty needle occurs everywhere).
pub open spec fn contains_sub(hay: Seq<char>, needle: Seq<char>) -> bool {
    exists|i: int| occurs_at(hay, needle, i)
}

/// ASCII lower-casing of one character (other characters are unchanged).
pub open spec fn ascii_lower(c: char) -> char {
    if 'A' <= c && c <= 'Z' {
        ((c as u32) + 32) as char
    } else {
        c
    }
}

/// ASCII lower-casing of a whole sequence.
pub open spec fn ascii_lower_seq(s: Seq<char>) -> Seq<char> {
    s.map_values(|c: char| ascii_lower(c))
}

/// Equality up to ASCII case.
pub open spec fn eq_ignore_ascii_case(a: Seq<char>, b: Seq<char>) -> bool {
    ascii_lower_seq(a) == ascii_lower_seq(b)
}

/// Number of leading copies of `c` in `s`.
pub open spec fn leading_count(s: Seq<char>, c: char) -> nat
    decreases s.len(),
{
    if s.len() > 0 && s[0] == c {
        1 + leading_count(s.drop_first(), c)
    } else {
        0
    }
}

/// Number of trailing copies of `c` in `s`.
pub open spec fn trailing_count(s: Seq<char>, c: char) -> nat
    decreases s.len(),
{
    if s.len() > 0 && s.last() == c {
        1 + trailing_count(s.drop_last(), c)
    } else {
        0
    }
}

/// `s` without its leading copies of `c`.
pub open spec fn trim_start_spec(s: Seq<char>, c: char) -> Seq<char> {
    s.subrange(leading_count(s, c) as int, s.len() as int)
}

/// `s` without its trailing copies of `c`.
pub open spec fn trim_end_spec(s: Seq<char>, c: char) -> Seq<char> {
    s.subrange(0, s.len() - trailing_count(s, c))
}

/// `s` without leading and trailing copies of `c`.
pub open spec fn trim_spec(s: Seq<char>, c: char) -> Seq<char> {
    trim_end_spec(trim_start_spec(s, c), c)
}

/// The pieces of `s` separated by `c` (as `str::split` with a char pattern):
/// there is always one more piece than occurrences of `c`.
pub open spec fn split_spec(s: Seq<char>, c: char) -> Seq<Seq<char>>
    decreases s.len(),
{
    if s.len() == 0 {
        seq![Seq::<char>::empty()]
    } else {
        let r = split_spec(s.drop_last(), c);
        if s.last() == c {
            r.push(Seq::<char>::empty())
        } else {
            r.update(r.len() - 1, r.last().push(s.last()))
        }
    }
}

/// The pieces joined back together with `c` between consecutive pieces.
pub open spec fn join_spec(parts: Seq<Seq<char>>, c: char) -> Seq<char>
    decreases parts.len(),
{
    if parts.len() == 0 {
        Seq::<char>::empty()
    } else if parts.len() == 1 {
        parts[0]
    } else {
        join_spec(parts.drop_last(), c).push(c) + parts.last()
    }
}

/// The views of a sequence of strings.
pub open spec fn views(v: Seq<String>) -> Seq<Seq<char>> {
    v.map_values(|s: String| s@)
}

/// Index of the last occurrence of `c` in `s`, if any.
pub open spec fn last_index_of(s: Seq<char>, c: char) -> Option<int>
    decreases s.len(),
{
    if s.len() == 0 {
        None
    } else if s.last() == c {
        Some(s.len() - 1)
    } else {
        last_index_of(s.drop_last(), c)
    }
}

/// Index of the first occurrence of `c` in `s`, if any.
pub open spec fn first_index_of(s: Seq<char>, c: char) -> Option<int>
    decreases s.len(),
{
    if s.len() == 0 {
        None
    } else if s[0] == c {
        Some(0)
    } else {
        match first_index_of(s.drop_first(), c) {
            Some(i) => Some(i + 1),
            None => None,
        }
    }
}

/// The text after the last `c` (the whole text when there is none), which is
/// what `s.rsplit(c).next()` yields.
pub open spec fn after_last(s: Seq<char>, c: char) -> Seq<char> {
    match last_index_of(s, c) {
        Some(i) => s.subrange(i + 1, s.len() as int),
        None => s,
    }
}

// ==================== lemmas ====================

/// Facts about `last_index_of`.
pub proof fn lemma_last_index_of(s: Seq<char>, c: char)
    ensures
        match last_index_of(s, c) {
            Some(i) => 0 <= i < s.len() && s[i] == c && forall|j: int|
                i < j < s.len() ==> s[j] != c,
            None => forall|j: int| 0 <= j < s.len() ==> s[j] != c,
        },
    decreases s.len(),
{
    if s.len() > 0 && s.last() != c {
        lemma_last_index_of(s.drop_last(), c);
        assert(forall|j: int| 0 <= j < s.len() - 1 ==> s.drop_last()[j] == s[j]);
    }
}

/// Facts about `first_index_of`.
pub proof fn lemma_first_index_of(s: Seq<char>, c: char)
    ensures
        match first_index_of(s, c) {
            Some(i) => 0 <= i < s.len() && s[i] == c && forall|j: int| 0 <= j < i ==> s[j] != c,
            None => forall|j: int| 0 <= j < s.len() ==> s[j] != c,
        },
    decreases s.len(),
{
    if s.len() > 0 && s[0] != c {
        lemma_first_index_of(s.drop_first(), c);
        match first_index_of(s.drop_first(), c) {
            Some(i) => {
                assert forall|j: int| 0 <= j < i + 1 implies s[j] != c by {
                    if j > 0 {
                        assert(s[j] == s.drop_first()[j - 1]);
                    }
                }
            },
            None => {
                assert forall|j: int| 0 <= j < s.len() implies s[j] != c by {
                    if j > 0 {
                        assert(s[j] == s.drop_first()[j - 1]);
                    }
                }
            },
        }
    }
}

/// The split of any text has at least one piece.
pub proof fn lemma_split_nonempty(s: Seq<char>, c: char)
    ensures
        split_spec(s, c).len() >= 1,
    decreases s.len(),
{
    if s.len() > 0 {
        lemma_split_nonempty(s.drop_last(), c);
    }
}

/// `leading_count` is bounded and really counts copies of `c`.
pub proof fn lemma_leading_count(s: Seq<char>, c: char)
    ensures
        leading_count(s, c) <= s.len(),
        forall|i: int| 0 <= i < leading_count(s, c) ==> s[i] == c,
        leading_count(s, c) < s.len() ==> s[leading_count(s, c) as int] != c,
    decreases s.len(),
{
    if s.len() > 0 && s[0] == c {
        lemma_leading_count(s.drop_first(), c);
        assert forall|i: int| 0 <= i < leading_count(s, c) implies s[i] == c by {
            if i > 0 {
                assert(s[i] == s.drop_first()[i - 1]);
            }
        }
    }
}

/// `trailing_count` is bounded and really counts copies of `c`.
pub proof fn lemma_trailing_count(s: Seq<char>, c: char)
    ensures
        trailing_count(s, c) <= s.len(),
        forall|i: int| s.len() - trailing_count(s, c) <= i < s.len() ==> s[i] == c,
        trailing_count(s, c) < s.len() ==> s[s.len() - trailing_count(s, c) - 1] != c,
    decreases s.len(),
{
    if s.len() > 0 && s.last() == c {
        lemma_trailing_count(s.drop_last(), c);
        assert(forall|j: int| 0 <= j < s.len() - 1 ==> s.drop_last()[j] == s[j]);
    }
}

/// A copy of `c` in front adds one to the leading count.
proof fn lemma_leading_count_cons(s: Seq<char>, c: char)
    ensures
        leading_count(seq![c] + s, c) == 1 + leading_count(s, c),
{
    let t = seq![c] + s;
    assert(t[0] == c);
    assert(t.drop_first() =~= s);
}

/// A copy of `c` at the end adds one to the trailing count.
proof fn lemma_trailing_count_snoc(s: Seq<char>, c: char)
    ensures
        trailing_count(s + seq![c], c) == 1 + trailing_count(s, c),
{
    let t = s + seq![c];
    assert(t.last() == c);
    assert(t.drop_last() =~= s);
}

/// Appending a copy of `c` leaves the leading count alone unless `s` is
/// made of `c` only.
proof fn lemma_leading_count_snoc(s: Seq<char>, c: char)
    ensures
        leading_count(s, c) < s.len() ==> leading_count(s + seq![c], c) == leading_count(s, c),
        leading_count(s, c) == s.len() ==> leading_count(s + seq![c], c) == s.len() + 1,
    decreases s.len(),
{
    lemma_leading_count(s, c);
    let t = s + seq![c];
    if s.len() == 0 {
        assert(t =~= seq![c]);
        assert(t.drop_first().len() == 0);
        reveal_with_fuel(leading_count, 2);
    } else {
        assert(t[0] == s[0]);
        assert(t.drop_first() =~= s.drop_first() + seq![c]);
        lemma_leading_count_snoc(s.drop_first(), c);
    }
}

/// Copies of `c` added at both ends do not change the trimmed text.
pub proof fn lemma_trim_outer(s: Seq<char>, c: char)
    ensures
        trim_spec(seq![c] + s + seq![c], c) == trim_spec(s, c),
{
    let a = s + seq![c];
    assert(seq![c] + s + seq![c] =~= seq![c] + a);
    lemma_leading_count_cons(a, c);
    lemma_leading_count(a, c);
    assert(trim_start_spec(seq![c] + a, c) =~= trim_start_spec(a, c));
    lemma_leading_count(s, c);
    lemma_leading_count_snoc(s, c);
    let ls = leading_count(s, c);
    if ls < s.len() {
        assert(trim_start_spec(a, c) =~= trim_start_spec(s, c) + seq![c]);
        lemma_trailing_count_snoc(trim_start_spec(s, c), c);
        lemma_trailing_count(trim_start_spec(s, c), c);
        assert(trim_end_spec(trim_start_spec(a, c), c) =~= trim_end_spec(trim_start_spec(s, c), c));
    } else {
        assert(trim_start_spec(a, c).len() == 0);
        assert(trim_start_spec(s, c).len() == 0);
        assert(trim_end_spec(trim_start_spec(a, c), c) =~= trim_end_spec(trim_start_spec(s, c), c));
    }
}

// ==================== exec helpers ====================

/// Appends one character to `s` (`String::push`).
#[verifier::external_body]
pub(crate) fn push_char(s: &mut String, c: char)
    ensures
        final(s)@ == old(s)@.push(c),
{
    s.push(c);
}

/// ASCII lower-casing of one character: `'A'..='Z'` to `'a'..='z'`, every
/// other character left alone.
pub(crate) fn lower_char(c: char) -> (r: char)
    ensures
        r == ascii_lower(c),
{
    if 'A' <= c && c <= 'Z' {
        let b = c as u8;
        assert(b == c as u32);
        (b + 32) as char
    } else {
        c
    }
}

/// The characters of `s`, in order.
pub fn chars_of(s: &str) -> (v: Vec<char>)
    ensures
        v@ == s@,
{
    let mut v: Vec<char> = Vec::new();
    for c in it: s.chars()
        invariant
            v@ == it.seq().take(it.index() as int),
            it.seq() == s@,
    {
        v.push(c);
    }
    v
}

/// A `String` made of the characters `v[from..to]`.
pub fn string_from_range(v: &Vec<char>, from: usize, to: usize) -> (s: String)
    requires
        from <= to <= v.len(),
    ensures
        s@ == v@.subrange(from as int, to as int),
{
    let mut s = String::new();
    let mut i = from;
    while i < to
        invariant
            from <= i <= to <= v.len(),
            s@ == v@.subrange(from as int, i as int),
        decreases to - i,
    {
        push_char(&mut s, v[i]);
        assert(v@.subrange(from as int, i + 1) == v@.subrange(from as int, i as int).push(
            v@[i as int],
        ));
        i += 1;
    }
    s
}

/// A `String` made of all the characters of `v`.
pub fn string_from_chars(v: &Vec<char>) -> (s: String)
    ensures
        s@ == v@,
{
    let s = string_from_range(v, 0, v.len());
    assert(v@.subrange(0, v@.len() as int) == v@);
    s
}

/// An owned copy of `s`.
pub fn owned(s: &str) -> (r: String)
    ensures
        r@ == s@,
{
    s.to_owned()
}

/// Whether `a[ai..]` starts with `b`.
fn vec_matches_at(a: &Vec<char>, ai: usize, b: &Vec<char>) -> (r: bool)
    requires
        ai <= a.len(),
    ensures
        r == occurs_at(a@, b@, ai as int),
{
    if b.len() > a.len() - ai {
        return false;
    }
    let mut k: usize = 0;
    while k < b.len()
        invariant
            ai <= a.len(),
            b.len() <= a.len() - ai,
            k <= b.len(),
            forall|j: int| 0 <= j < k ==> a@[ai + j] == b@[j],
        decreases b.len() - k,
    {
        if a[ai + k] != b[k] {
            assert(a@.subrange(ai as int, ai + b@.len())[k as int] != b@[k as int]);
            return false;
        }
        k += 1;
    }
    assert(a@.subrange(ai as int, ai + b@.len()) =~= b@);
    true
}

/// Whether two strings are equal.
pub fn str_eq(a: &str, b: &str) -> (r: bool)
    ensures
        r == (a@ == b@),
{
    let va = chars_of(a);
    let vb = chars_of(b);
    if va.len() != vb.len() {
        return false;
    }
    let r = vec_matches_at(&va, 0, &vb);
    proof {
        if r {
            assert(va@.subrange(0, vb@.len() as int) == va@);
        } else if va@ == vb@ {
            assert(va@.subrange(0, vb@.len() as int) =~= vb@);
        }
    }
    r
}

/// Whether `s` starts with `p`.
pub fn starts_with(s: &str, p: &str) -> (r: bool)
    ensures
        r == has_prefix(s@, p@),
{
    let vs = chars_of(s);
    let vp = chars_of(p);
    vec_matches_at(&vs, 0, &vp)
}

/// Whether `hay` contains `needle` (`str::contains` with a `&str` pattern).
pub fn contains(hay: &str, needle: &str) -> (r: bool)
    ensures
        r == contains_sub(hay@, needle@),
{
    let vh = chars_of(hay);
    let vn = chars_of(needle);
    if vn.len() > vh.len() {
        assert forall|i: int| !occurs_at(hay@, needle@, i) by {}
        return false;
    }
    let last = vh.len() - vn.len();
    let mut i: usize = 0;
    loop
        invariant
            vn.len() <= vh.len(),
            last == vh.len() - vn.len(),
            vh@ == hay@,
            vn@ == needle@,
            i <= last,
            forall|j: int| 0 <= j < i ==> !occurs_at(hay@, needle@, j),
        decreases last - i,
    {
        if vec_matches_at(&vh, i, &vn) {
            return true;
        }
        if i == last {
            assert forall|j: int| !occurs_at(hay@, needle@, j) by {
                if 0 <= j < i {
                }
            }
            return false;
        }
        i += 1;
    }
}

/// `i` is the first position where `needle` occurs in `hay`.
pub open spec fn first_occurrence_at(hay: Seq<char>, needle: Seq<char>, i: int) -> bool {
    &&& occurs_at(hay, needle, i)
    &&& forall|j: int| 0 <= j < i ==> !occurs_at(hay, needle, j)
}

/// There is at most one first occurrence.
pub proof fn lemma_first_occurrence_unique(hay: Seq<char>, needle: Seq<char>, i: int, j: int)
    requires
        first_occurrence_at(hay, needle, i),
        first_occurrence_at(hay, needle, j),
    ensures
        i == j,
{
}

/// Position of the first occurrence of `needle` in `hay` (`str::find`, in characters).
pub fn find(hay: &str, needle: &str) -> (r: Option<usize>)
    ensures
        match r {
            Some(i) => first_occurrence_at(hay@, needle@, i as int),
            None => !contains_sub(hay@, needle@),
        },
{
    let vh = chars_of(hay);
    let vn = chars_of(needle);
    if vn.len() > vh.len() {
        assert forall|i: int| !occurs_at(hay@, needle@, i) by {}
        return None;
    }
    let last = vh.len() - vn.len();
    let mut i: usize = 0;
    loop
        invariant
            vn.len() <= vh.len(),
            last == vh.len() - vn.len(),
            vh@ == hay@,
            vn@ == needle@,
            i <= last,
            forall|j: int| 0 <= j < i ==> !occurs_at(hay@, needle@, j),
        decreases last - i,
    {
        if vec_matches_at(&vh, i, &vn) {
            return Some(i);
        }
        if i == last {
            assert forall|j: int| !occurs_at(hay@, needle@, j) by {
                if 0 <= j < i {
                }
            }
            return None;
        }
        i += 1;
    }
}

/// Whether `a` and `b` are equal up to ASCII case (`str::eq_ignore_ascii_case`).
pub fn eq_ignore_case(a: &str, b: &str) -> (r: bool)
    ensures
        r == eq_ignore_ascii_case(a@, b@),
{
    let va = chars_of(a);
    let vb = chars_of(b);
    if va.len() != vb.len() {
        assert(ascii_lower_seq(a@).len() != ascii_lower_seq(b@).len());
        return false;
    }
    let mut k: usize = 0;
    while k < va.len()
        invariant
            va@ == a@,
            vb@ == b@,
            va.len() == vb.len(),
            k <= va.len(),
            forall|j: int| 0 <= j < k ==> ascii_lower(a@[j]) == ascii_lower(b@[j]),
        decreases va.len() - k,
    {
        if lower_char(va[k]) != lower_char(vb[k]) {
            assert(ascii_lower_seq(a@)[k as int] != ascii_lower_seq(b@)[k as int]);
            return false;
        }
        k += 1;
    }
    assert(ascii_lower_seq(a@) =~= ascii_lower_seq(b@));
    true
}

/// Index of the last copy of `c` in `v`, if any.
pub fn last_index(v: &Vec<char>, c: char) -> (r: Option<usize>)
    ensures
        match r {
            Some(i) => last_index_of(v@, c) == Some(i as int),
            None => last_index_of(v@, c) is None,
        },
{
    let mut i = v.len();
    assert(v@.subrange(0, v@.len() as int) == v@);
    while i > 0
        invariant
            i <= v.len(),
            last_index_of(v@, c) == last_index_of(v@.subrange(0, i as int), c),
        decreases i,
    {
        let ghost pre = v@.subrange(0, i as int);
        assert(pre.drop_last() == v@.subrange(0, i - 1));
        if v[i - 1] == c {
            return Some(i - 1);
        }
        i -= 1;
    }
    None
}

/// Index of the first copy of `c` in `v`, if any.
pub fn first_index(v: &Vec<char>, c: char) -> (r: Option<usize>)
    ensures
        match r {
            Some(i) => first_index_of(v@, c) == Some(i as int),
            None => first_index_of(v@, c) is None,
        },
{
    proof {
        lemma_first_index_of(v@, c);
    }
    let mut i: usize = 0;
    while i < v.len()
        invariant
            i <= v.len(),
            forall|j: int| 0 <= j < i ==> v@[j] != c,
            match first_index_of(v@, c) {
                Some(k) => 0 <= k < v@.len() && v@[k] == c && forall|j: int|
                    0 <= j < k ==> v@[j] != c,
                None => forall|j: int| 0 <= j < v@.len() ==> v@[j] != c,
            },
        decreases v.len() - i,
    {
        if v[i] == c {
            return Some(i);
        }
        i += 1;
    }
    None
}

/// Number of leading copies of `c` in `v`.
fn leading(v: &Vec<char>, c: char) -> (n: usize)
    ensures
        n == leading_count(v@, c),
{
    proof {
        lemma_leading_count(v@, c);
    }
    let mut i: usize = 0;
    while i < v.len() && v[i] == c
        invariant
            i <= v.len(),
            i <= leading_count(v@, c),
            leading_count(v@, c) <= v.len(),
            forall|j: int| 0 <= j < leading_count(v@, c) ==> v@[j] == c,
            leading_count(v@, c) < v.len() ==> v@[leading_count(v@, c) as int] != c,
        decreases v.len() - i,
    {
        i += 1;
    }
    i
}

/// Number of trailing copies of `c` in `v`.
fn trailing(v: &Vec<char>, c: char) -> (n: usize)
    ensures
        n == trailing_count(v@, c),
{
    proof {
        lemma_trailing_count(v@, c);
    }
    let mut i: usize = 0;
    while i < v.len() && v[v.len() - 1 - i] == c
        invariant
            i <= v.len(),
            i <= trailing_count(v@, c),
            trailing_count(v@, c) <= v.len(),
            forall|j: int| v.len() - trailing_count(v@, c) <= j < v.len() ==> v@[j] == c,
            trailing_count(v@, c) < v.len() ==> v@[v.len() - trailing_count(v@, c) - 1] != c,
        decreases v.len() - i,
    {
        i += 1;
    }
    i
}

/// `s` without its leading copies of `c` (`str::trim_start_matches`).
pub fn trim_start(s: &str, c: char) -> (r: String)
    ensures
        r@ == trim_start_spec(s@, c),
{
    let v = chars_of(s);
    proof {
        lemma_leading_count(v@, c);
    }
    let n = leading(&v, c);
    string_from_range(&v, n, v.len())
}

/// `s` without its trailing copies of `c` (`str::trim_end_matches`).
pub fn trim_end(s: &str, c: char) -> (r: String)
    ensures
        r@ == trim_end_spec(s@, c),
{
    let v = chars_of(s);
    proof {
        lemma_trailing_count(v@, c);
    }
    let n = trailing(&v, c);
    string_from_range(&v, 0, v.len() - n)
}

/// `s` without leading and trailing copies of `c` (`str::trim_matches`).
pub fn trim(s: &str, c: char) -> (r: String)
    ensures
        r@ == trim_spec(s@, c),
{
    let a = trim_start(s, c);
    trim_end(a.as_str(), c)
}

/// The pieces of `v` separated by `c`.
pub fn split_chars(v: &Vec<char>, c: char) -> (r: Vec<String>)
    ensures
        views(r@) == split_spec(v@, c),
{
    let mut parts: Vec<String> = Vec::new();
    let mut cur = String::new();
    let mut i: usize = 0;
    while i < v.len()
        invariant
            i <= v.len(),
            views(parts@).push(cur@) == split_spec(v@.take(i as int), c),
        decreases v.len() - i,
    {
        let ghost before = v@.take(i as int);
        assert(v@.take(i + 1).drop_last() == before);
        assert(v@.take(i + 1).last() == v@[i as int]);
        proof {
            lemma_split_nonempty(before, c);
        }
        if v[i] == c {
            let ghost old_parts = parts@;
            let ghost old_cur = cur@;
            parts.push(cur);
            cur = String::new();
            assert(views(parts@) == views(old_parts).push(old_cur));
        } else {
            let ghost old_cur = cur@;
            push_char(&mut cur, v[i]);
            assert(views(parts@).push(cur@) == views(parts@).push(old_cur).update(
                views(parts@).len() as int,
                old_cur.push(v@[i as int]),
            ));
        }
        i += 1;
    }
    assert(v@.take(v.len() as int) == v@);
    let ghost old_parts = parts@;
    let ghost old_cur = cur@;
    parts.push(cur);
    assert(views(parts@) == views(old_parts).push(old_cur));
    parts
}

/// `parts` joined with `c` between consecutive pieces (`[..].join`).
pub fn join_strings(parts: &Vec<String>, c: char) -> (r: String)
    ensures
        r@ == join_spec(views(parts@), c),
{
    let mut out = String::new();
    let mut i: usize = 0;
    while i < parts.len()
        invariant
            i <= parts.len(),
            out@ == join_spec(views(parts@).take(i as int), c),
        decreases parts.len() - i,
    {
        let ghost before = views(parts@).take(i as int);
        assert(views(parts@).take(i + 1).drop_last() == before);
        if i > 0 {
            push_char(&mut out, c);
        }
        let piece = chars_of(parts[i].as_str());
        let mut k: usize = 0;
        let ghost base = out@;
        while k < piece.len()
            invariant
                k <= piece.len(),
                out@ == base + piece@.take(k as int),
            decreases piece.len() - k,
        {
            push_char(&mut out, piece[k]);
            assert(piece@.take(k + 1) == piece@.take(k as int).push(piece@[k as int]));
            k += 1;
        }
        assert(piece@.take(piece.len() as int) == piece@);
        if i == 0 {
            assert(base == Seq::<char>::empty());
            assert(out@ == views(parts@)[0]);
        }
        i += 1;
    }
    assert(views(parts@).take(parts.len() as int) == views(parts@));
    out
}

} // verus!

verus! {

/// The concatenation of `a` and `b`.
pub fn concat(a: &str, b: &str) -> (r: String)
    ensures
        r@ == a@ + b@,
{
    let mut v = chars_of(a);
    let vb = chars_of(b);
    let mut k: usize = 0;
    let ghost base = v@;
    while k < vb.len()
        invariant
            k <= vb.len(),
            base == a@,
            vb@ == b@,
            v@ == base + vb@.take(k as int),
        decreases vb.len() - k,
    {
        v.push(vb[k]);
        assert(vb@.take(k + 1) == vb@.take(k as int).push(vb@[k as int]));
        k += 1;
    }
    assert(vb@.take(vb.len() as int) == vb@);
    string_from_chars(&v)
}

} // verus!

verus! {

/// Whether some element of `list` equals `s`.
pub fn list_contains(list: &[String], s: &str) -> (r: bool)
    ensures
        r == views(list@).contains(s@),
{
    let mut i: usize = 0;
    while i < list.len()
        invariant
            i <= list.len(),
            forall|j: int| 0 <= j < i ==> list@[j]@ != s@,
        decreases list.len() - i,
    {
        if str_eq(list[i].as_str(), s) {
            assert(views(list@)[i as int] == s@);
            return true;
        }
        i += 1;
    }
    assert forall|j: int| 0 <= j < views(list@).len() implies views(list@)[j] != s@ by {}
    false
}

} // verus!

verus! {

/// ASCII upper-casing of one character (other characters are unchanged).
pub open spec fn ascii_upper(c: char) -> char {
    if 'a' <= c && c <= 'z' {
        ((c as u32) - 32) as char
    } else {
        c
    }
}

/// ASCII upper-casing of a whole sequence.
pub open spec fn ascii_upper_seq(s: Seq<char>) -> Seq<char> {
    s.map_values(|c: char| ascii_upper(c))
}

/// ASCII upper-casing of one character: `'a'..='z'` to `'A'..='Z'`, every
/// other character left alone.
pub(crate) fn upper_char(c: char) -> (r: char)
    ensures
        r == ascii_upper(c),
{
    if 'a' <= c && c <= 'z' {
        let b = c as u8;
        assert(b == c as u32);
        (b - 32) as char
    } else {
        c
    }
}

/// ASCII upper-casing of a text.
pub fn upper_ascii(s: &str) -> (r: String)
    ensures
        r@ == ascii_upper_seq(s@),
{
    let v = chars_of(s);
    let mut out: Vec<char> = Vec::new();
    let mut i: usize = 0;
    while i < v.len()
        invariant
            i <= v.len(),
            v@ == s@,
            out@ == ascii_upper_seq(s@.take(i as int)),
        decreases v.len() - i,
    {
        out.push(upper_char(v[i]));
        assert(ascii_upper_seq(s@.take(i + 1)) =~= ascii_upper_seq(s@.take(i as int)).push(
            ascii_upper(s@[i as int]),
        ));
        i += 1;
    }
    assert(s@.take(v.len() as int) == s@);
    string_from_chars(&out)
}

/// ASCII lower-casing of a text.
pub fn lower_ascii(s: &str) -> (r: String)
    ensures
        r@ == ascii_lower_seq(s@),
{
    let v = chars_of(s);
    let mut out: Vec<char> = Vec::new();
    let mut i: usize = 0;
    while i < v.len()
        invariant
            i <= v.len(),
            v@ == s@,
            out@ == ascii_lower_seq(s@.take(i as int)),
        decreases v.len() - i,
    {
        out.push(lower_char(v[i]));
        assert(ascii_lower_seq(s@.take(i + 1)) =~= ascii_lower_seq(s@.take(i as int)).push(
            ascii_lower(s@[i as int]),
        ));
        i += 1;
    }
    assert(s@.take(v.len() as int) == s@);
    string_from_chars(&out)
}

/// The text after the last `c` in `s` (all of `s` when there is none).
pub fn after_last_char(s: &str, c: char) -> (r: String)
    ensures
        r@ == after_last(s@, c),
{
    let v = chars_of(s);
    proof {
        lemma_last_index_of(v@, c);
    }
    match last_index(&v, c) {
        Some(i) => {
            assert(last_index_of(v@, c) == Some(i as int));
            assert(i < v.len());
            string_from_range(&v, i + 1, v.len())
        },
        None => string_from_chars(&v),
    }
}

} // verus!
