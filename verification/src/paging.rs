//! Newest-first listings: the text order records are sorted by, a sort that
//! keeps every record, and the page a limit and an offset select.

use vstd::prelude::*;

use crate::text::chars_of;

verus! {

broadcast use vstd::seq_lib::group_to_multiset_ensures;

// ======================== text order ========================

/// `a` sorts before `b`: character by character, a proper prefix first (the
/// order of text columns compared byte by byte, as UTF-8 keeps the order of
/// code points).
pub open spec fn str_lt(a: Seq<char>, b: Seq<char>) -> bool
    decreases a.len(),
{
    if a.len() == 0 {
        b.len() > 0
    } else if b.len() == 0 {
        false
    } else if a[0] != b[0] {
        a[0] < b[0]
    } else {
        str_lt(a.drop_first(), b.drop_first())
    }
}

/// Exactly one of `a < b`, `a == b`, `b < a` holds.
pub proof fn lemma_str_trichotomy(a: Seq<char>, b: Seq<char>)
    ensures
        str_lt(a, b) || a == b || str_lt(b, a),
        !(str_lt(a, b) && str_lt(b, a)),
        !(str_lt(a, b) && a == b),
    decreases a.len(),
{
    if a.len() > 0 && b.len() > 0 && a[0] == b[0] {
        lemma_str_trichotomy(a.drop_first(), b.drop_first());
        if a.drop_first() == b.drop_first() {
            assert(a =~= seq![a[0]] + a.drop_first());
            assert(b =~= seq![b[0]] + b.drop_first());
        }
    } else if a.len() == 0 && b.len() == 0 {
        assert(a =~= b);
    }
}

/// The text order is transitive.
pub proof fn lemma_str_transitive(a: Seq<char>, b: Seq<char>, c: Seq<char>)
    requires
        str_lt(a, b),
        str_lt(b, c),
    ensures
        str_lt(a, c),
    decreases a.len(),
{
    if a.len() > 0 && b.len() > 0 && c.len() > 0 && a[0] == b[0] && b[0] == c[0] {
        lemma_str_transitive(a.drop_first(), b.drop_first(), c.drop_first());
    }
}

/// Whether `a` sorts before `b` (see [`str_lt`]).
pub fn str_less(a: &str, b: &str) -> (r: bool)
    ensures
        r == str_lt(a@, b@),
{
    let va = chars_of(a);
    let vb = chars_of(b);
    let mut i: usize = 0;
    proof {
        assert(a@.skip(0) =~= a@);
        assert(b@.skip(0) =~= b@);
    }
    while i < va.len() && i < vb.len() && va[i] == vb[i]
        invariant
            i <= va@.len(),
            i <= vb@.len(),
            va@ == a@,
            vb@ == b@,
            str_lt(a@, b@) == str_lt(a@.skip(i as int), b@.skip(i as int)),
        decreases va.len() - i,
    {
        proof {
            assert(a@.skip(i + 1) =~= a@.skip(i as int).drop_first());
            assert(b@.skip(i + 1) =~= b@.skip(i as int).drop_first());
        }
        i += 1;
    }
    if i == va.len() {
        i < vb.len()
    } else if i == vb.len() {
        false
    } else {
        va[i] < vb[i]
    }
}

// ======================== keyed records ========================

/// A record listed newest first: by a primary text key, then a secondary one.
pub trait SortKey {
    /// The primary key (a timestamp).
    spec fn primary(&self) -> Seq<char>;

    /// The secondary key that orders records with equal primary keys.
    spec fn secondary(&self) -> Seq<char>;

    /// Whether `self` sorts before `other` by (primary, secondary).
    fn key_less(&self, other: &Self) -> (r: bool)
        ensures
            r == key_lt(self.primary(), self.secondary(), other.primary(), other.secondary()),
    ;
}

/// Order of (primary, secondary) key pairs.
pub open spec fn key_lt(p1: Seq<char>, s1: Seq<char>, p2: Seq<char>, s2: Seq<char>) -> bool {
    str_lt(p1, p2) || (p1 == p2 && str_lt(s1, s2))
}

/// `a` sorts before `b`.
pub open spec fn before<T: SortKey>(a: T, b: T) -> bool {
    key_lt(a.primary(), a.secondary(), b.primary(), b.secondary())
}

/// Newest first: no record sorts before a later one in the list.
pub open spec fn sorted_desc<T: SortKey>(s: Seq<T>) -> bool {
    forall|i: int, j: int| 0 <= i < j < s.len() ==> !before(#[trigger] s[i], #[trigger] s[j])
}

proof fn lemma_before_total<T: SortKey>(a: T, b: T)
    ensures
        before(a, b) || before(b, a) || (a.primary() == b.primary() && a.secondary() == b.secondary()),
        !(before(a, b) && before(b, a)),
{
    lemma_str_trichotomy(a.primary(), b.primary());
    lemma_str_trichotomy(a.secondary(), b.secondary());
}

proof fn lemma_before_transitive<T: SortKey>(a: T, b: T, c: T)
    requires
        before(a, b) || (a.primary() == b.primary() && a.secondary() == b.secondary()),
        before(b, c),
    ensures
        before(a, c),
{
    lemma_str_trichotomy(a.primary(), b.primary());
    lemma_str_trichotomy(b.primary(), c.primary());
    if str_lt(a.primary(), b.primary()) && str_lt(b.primary(), c.primary()) {
        lemma_str_transitive(a.primary(), b.primary(), c.primary());
    }
    if a.primary() == b.primary() && b.primary() == c.primary() && str_lt(a.secondary(), b.secondary())
        && str_lt(b.secondary(), c.secondary()) {
        lemma_str_transitive(a.secondary(), b.secondary(), c.secondary());
    }
}

/// Sorts records newest first, keeping every record (records with equal
/// keys keep their relative order).
pub fn sort_desc<T: SortKey>(v: Vec<T>) -> (r: Vec<T>)
    ensures
        sorted_desc(r@),
        r@.to_multiset() == v@.to_multiset(),
{
    let mut out: Vec<T> = Vec::new();
    let mut rest = v;
    let ghost orig = rest@;
    proof {
        assert(orig.take(0) =~= Seq::<T>::empty());
    }
    let mut k: usize = 0;
    let n = rest.len();
    // Take the records front to back by reversing once and popping.
    let mut stack: Vec<T> = Vec::new();
    while rest.len() > 0
        invariant
            stack@ + rest@.reverse() =~= orig.reverse(),
        decreases rest.len(),
    {
        let ghost before_rest = rest@;
        let ghost before_stack = stack@;
        let x = rest.pop().unwrap();
        stack.push(x);
        proof {
            assert(before_rest == rest@.push(x));
            assert(before_rest.reverse() =~= seq![x] + rest@.reverse());
            assert(stack@ + rest@.reverse() =~= before_stack + before_rest.reverse());
        }
    }
    proof {
        assert(stack@ =~= orig.reverse());
    }
    while stack.len() > 0
        invariant
            k + stack@.len() == n,
            n == orig.len(),
            stack@ =~= orig.subrange(k as int, n as int).reverse(),
            sorted_desc(out@),
            out@.to_multiset() == orig.take(k as int).to_multiset(),
        decreases stack.len(),
    {
        let ghost before_stack = stack@;
        let x = stack.pop().unwrap();
        proof {
            assert(before_stack == stack@.push(x));
            assert(x == orig[k as int]) by {
                assert(orig.subrange(k as int, n as int).reverse()[stack@.len() as int] == orig.subrange(
                    k as int,
                    n as int,
                )[0]);
            }
            assert(stack@ =~= orig.subrange(k + 1, n as int).reverse());
            assert(orig.take(k + 1) =~= orig.take(k as int).push(x));
        }
        let mut p: usize = 0;
        while p < out.len() && !out[p].key_less(&x)
            invariant
                p <= out@.len(),
                forall|i: int| 0 <= i < p ==> !before(#[trigger] out@[i], x),
            decreases out.len() - p,
        {
            p += 1;
        }
        let ghost old_out = out@;
        out.insert(p, x);
        proof {
            assert(out@ =~= old_out.insert(p as int, x));
            assert forall|i: int, j: int| 0 <= i < j < out@.len() implies !before(#[trigger] out@[i], #[trigger] out@[j]) by {
                if j < p {
                    assert(out@[i] == old_out[i] && out@[j] == old_out[j]);
                } else if j == p {
                    assert(out@[i] == old_out[i]);
                } else if i == p {
                    // x after the insertion point: old_out[j - 1] does not sort after x
                    let y = old_out[j - 1];
                    assert(out@[j] == y);
                    assert(before(old_out[p as int], x));
                    if p < j - 1 {
                        assert(!before(old_out[p as int], y));
                        lemma_before_total(old_out[p as int], y);
                        lemma_before_transitive(y, old_out[p as int], x);
                    }
                    lemma_before_total(y, x);
                } else if i < p {
                    let y = old_out[j - 1];
                    assert(out@[i] == old_out[i]);
                    assert(out@[j] == y);
                } else {
                    assert(out@[i] == old_out[i - 1]);
                    assert(out@[j] == old_out[j - 1]);
                }
            }
        }
        k += 1;
    }
    proof {
        assert(orig.take(n as int) =~= orig);
    }
    out
}

// ======================== pages ========================

/// The page `limit` and `offset` select: a negative offset counts as zero
/// and a negative limit means no limit (the rules of SQL `LIMIT ... OFFSET`
/// in SQLite).
pub open spec fn page<T>(s: Seq<T>, limit: i64, offset: i64) -> Seq<T> {
    let start: int = if offset <= 0 {
        0
    } else if offset >= s.len() {
        s.len() as int
    } else {
        offset as int
    };
    let end: int = if limit < 0 || start + limit >= s.len() {
        s.len() as int
    } else {
        start + limit
    };
    s.subrange(start, end)
}

/// The page of `v` that `limit` and `offset` select (see [`page`]).
pub fn take_page<T>(v: Vec<T>, limit: i64, offset: i64) -> (r: Vec<T>)
    ensures
        r@ == page(v@, limit, offset),
{
    let n = v.len();
    let start: usize = if offset <= 0 {
        0
    } else if offset as u64 >= n as u64 {
        n
    } else {
        offset as usize
    };
    let end: usize = if limit < 0 || limit as u64 >= (n - start) as u64 {
        n
    } else {
        start + limit as usize
    };
    let mut out: Vec<T> = Vec::new();
    let mut rest = v;
    let ghost orig = rest@;
    let mut i: usize = n;
    // Drop the tail past `end`, then keep `[start, end)` in order.
    while i > end
        invariant
            end <= i <= n,
            n == orig.len(),
            rest@ == orig.take(i as int),
        decreases i,
    {
        let ghost before = rest@;
        let _ = rest.pop();
        proof {
            assert(rest@ =~= orig.take(i - 1));
        }
        i -= 1;
    }
    let mut tail: Vec<T> = Vec::new();
    while i > start
        invariant
            start <= i <= end,
            end <= n,
            n == orig.len(),
            rest@ == orig.take(i as int),
            tail@ =~= orig.subrange(i as int, end as int).reverse(),
        decreases i,
    {
        let ghost before_tail = tail@;
        let x = rest.pop().unwrap();
        tail.push(x);
        proof {
            assert(x == orig[i - 1]);
            assert(rest@ =~= orig.take(i - 1));
            assert(orig.subrange(i - 1, end as int).reverse() =~= before_tail.push(x));
        }
        i -= 1;
    }
    while tail.len() > 0
        invariant
            out@ + tail@.reverse() =~= orig.subrange(start as int, end as int),
        decreases tail.len(),
    {
        let ghost before_tail = tail@;
        let ghost before_out = out@;
        let x = tail.pop().unwrap();
        out.push(x);
        proof {
            assert(before_tail == tail@.push(x));
            assert(before_tail.reverse() =~= seq![x] + tail@.reverse());
            assert(out@ + tail@.reverse() =~= before_out + before_tail.reverse());
        }
    }
    proof {
        assert(out@ =~= orig.subrange(start as int, end as int));
    }
    out
}

/// A count as the 64-bit signed number a query reports (saturating).
pub fn count_i64(n: usize) -> (r: i64)
    ensures
        r == (if n <= i64::MAX { n as int } else { i64::MAX as int }),
{
    if n as u64 <= 0x7fff_ffff_ffff_ffff {
        n as i64
    } else {
        0x7fff_ffff_ffff_ffff
    }
}

// ======================== laws ========================

/// A page never holds more than the limit, nor records past the offset's end.
pub proof fn law_page_bounds<T>(s: Seq<T>, limit: i64, offset: i64)
    ensures
        page(s, limit, offset).len() <= s.len(),
        limit >= 0 ==> page(s, limit, offset).len() <= limit,
        offset >= s.len() ==> page(s, limit, offset).len() == 0,
        offset <= 0 && limit < 0 ==> page(s, limit, offset) == s,
{
    if offset <= 0 && limit < 0 {
        assert(s.subrange(0, s.len() as int) =~= s);
    }
}

} // verus!
