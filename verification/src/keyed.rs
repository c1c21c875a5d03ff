//! String-keyed entry lists: a `Vec<(String, V)>` with pairwise distinct keys,
//! read as the map from each key's text to its value.

use vstd::prelude::*;

use crate::text::str_eq;

verus! {

/// The keys of the entries are pairwise distinct.
pub open spec fn distinct<V>(v: Seq<(String, V)>) -> bool {
    forall|i: int, j: int| 0 <= i < v.len() && 0 <= j < v.len() && i != j ==> v[i].0@ != v[j].0@
}

/// Some entry has key `k`.
pub open spec fn has_key<V>(v: Seq<(String, V)>, k: Seq<char>) -> bool {
    exists|i: int| 0 <= i < v.len() && v[i].0@ == k
}

/// The map the entries stand for: each key's text to its value.
pub open spec fn entry_map<V>(v: Seq<(String, V)>) -> Map<Seq<char>, V> {
    Map::new(
        |k: Seq<char>| has_key(v, k),
        |k: Seq<char>| v[choose|i: int| 0 <= i < v.len() && v[i].0@ == k].1,
    )
}

/// The values of the entries, in order.
pub open spec fn entry_values<V>(v: Seq<(String, V)>) -> Seq<V> {
    v.map_values(|e: (String, V)| e.1)
}

/// With distinct keys, the map sends each entry's key to that entry's value.
pub proof fn lemma_entry_at<V>(v: Seq<(String, V)>, i: int)
    requires
        distinct(v),
        0 <= i < v.len(),
    ensures
        entry_map(v).contains_key(v[i].0@),
        entry_map(v)[v[i].0@] == v[i].1,
{
    let k = v[i].0@;
    assert(has_key(v, k));
    let c = choose|j: int| 0 <= j < v.len() && v[j].0@ == k;
    if c != i {
        assert(v[c].0@ != v[i].0@);
    }
}

/// Index of the entry with key `k`, if any.
pub fn find_index<V>(v: &Vec<(String, V)>, k: &str) -> (r: Option<usize>)
    ensures
        match r {
            Some(i) => i < v@.len() && v@[i as int].0@ == k@,
            None => !has_key(v@, k@),
        },
{
    let mut i: usize = 0;
    while i < v.len()
        invariant
            i <= v.len(),
            forall|j: int| 0 <= j < i ==> v@[j].0@ != k@,
        decreases v.len() - i,
    {
        if str_eq(v[i].0.as_str(), k) {
            return Some(i);
        }
        i += 1;
    }
    None
}

/// The value stored under `k`, if any.
pub fn get_value<'a, V>(v: &'a Vec<(String, V)>, k: &str) -> (r: Option<&'a V>)
    requires
        distinct(v@),
    ensures
        match r {
            Some(x) => entry_map(v@).contains_key(k@) && entry_map(v@)[k@] == *x,
            None => !entry_map(v@).contains_key(k@),
        },
{
    match find_index(v, k) {
        Some(i) => {
            proof {
                lemma_entry_at(v@, i as int);
            }
            Some(&v[i].1)
        },
        None => None,
    }
}

/// Stores `x` under `k`: the entry with that key gets the new value in place,
/// or a new entry is appended.
pub fn upsert<V>(v: &mut Vec<(String, V)>, k: String, x: V)
    requires
        distinct(old(v)@),
    ensures
        distinct(final(v)@),
        entry_map(final(v)@) == entry_map(old(v)@).insert(k@, x),
        has_key(old(v)@, k@) ==> final(v)@.len() == old(v)@.len() && forall|j: int|
            0 <= j < old(v)@.len() && old(v)@[j].0@ != k@ ==> final(v)@[j] == old(v)@[j],
        !has_key(old(v)@, k@) ==> final(v)@ == old(v)@.push((k, x)),
{
    let ghost kv = k@;
    let ghost old_v = v@;
    match find_index(v, k.as_str()) {
        Some(i) => {
            let key = v[i].0.clone();
            v.set(i, (key, x));
            proof {
                assert(distinct(v@)) by {
                    assert forall|a: int, b: int|
                        0 <= a < v@.len() && 0 <= b < v@.len() && a != b implies v@[a].0@
                        != v@[b].0@ by {
                        assert(v@[a].0@ == old_v[a].0@);
                        assert(v@[b].0@ == old_v[b].0@);
                    }
                }
                assert forall|q: Seq<char>| entry_map(v@).contains_key(q) <==> entry_map(
                    old_v,
                ).insert(kv, x).contains_key(q) by {
                    if has_key(v@, q) {
                        let j = choose|j: int| 0 <= j < v@.len() && v@[j].0@ == q;
                        assert(old_v[j].0@ == q);
                    }
                    if has_key(old_v, q) {
                        let j = choose|j: int| 0 <= j < old_v.len() && old_v[j].0@ == q;
                        assert(v@[j].0@ == q);
                    }
                    if q == kv {
                        assert(v@[i as int].0@ == q);
                    }
                }
                assert forall|q: Seq<char>| #[trigger]
                    entry_map(v@).contains_key(q) implies entry_map(v@)[q] == entry_map(
                    old_v,
                ).insert(kv, x)[q] by {
                    let j = choose|j: int| 0 <= j < v@.len() && v@[j].0@ == q;
                    lemma_entry_at(v@, j);
                    if j == i {
                        assert(q == kv);
                    } else {
                        assert(v@[j] == old_v[j]);
                        lemma_entry_at(old_v, j);
                        assert(q != kv);
                    }
                }
                assert(entry_map(v@) =~= entry_map(old_v).insert(kv, x));
            }
        },
        None => {
            v.push((k, x));
            proof {
                let n = old_v.len() as int;
                assert(distinct(v@)) by {
                    assert forall|a: int, b: int|
                        0 <= a < v@.len() && 0 <= b < v@.len() && a != b implies v@[a].0@
                        != v@[b].0@ by {
                        if a < n && b < n {
                            assert(v@[a] == old_v[a]);
                            assert(v@[b] == old_v[b]);
                        } else if a < n {
                            assert(v@[a] == old_v[a]);
                        } else {
                            assert(v@[b] == old_v[b]);
                        }
                    }
                }
                assert forall|q: Seq<char>| entry_map(v@).contains_key(q) <==> entry_map(
                    old_v,
                ).insert(kv, x).contains_key(q) by {
                    if has_key(v@, q) {
                        let j = choose|j: int| 0 <= j < v@.len() && v@[j].0@ == q;
                        if j < n {
                            assert(v@[j] == old_v[j]);
                        }
                    }
                    if has_key(old_v, q) {
                        let j = choose|j: int| 0 <= j < old_v.len() && old_v[j].0@ == q;
                        assert(v@[j] == old_v[j]);
                    }
                    if q == kv {
                        assert(v@[n].0@ == q);
                    }
                }
                assert forall|q: Seq<char>| #[trigger]
                    entry_map(v@).contains_key(q) implies entry_map(v@)[q] == entry_map(
                    old_v,
                ).insert(kv, x)[q] by {
                    let j = choose|j: int| 0 <= j < v@.len() && v@[j].0@ == q;
                    lemma_entry_at(v@, j);
                    if j == n {
                        assert(q == kv);
                    } else {
                        assert(v@[j] == old_v[j]);
                        lemma_entry_at(old_v, j);
                        assert(q != kv);
                    }
                }
                assert(entry_map(v@) =~= entry_map(old_v).insert(kv, x));
            }
        },
    }
}

/// Removes the entry with key `k` (if any) and returns its value.
pub fn remove_key<V>(v: &mut Vec<(String, V)>, k: &str) -> (r: Option<V>)
    requires
        distinct(old(v)@),
    ensures
        distinct(final(v)@),
        entry_map(final(v)@) == entry_map(old(v)@).remove(k@),
        match r {
            Some(x) => entry_map(old(v)@).contains_key(k@) && entry_map(old(v)@)[k@] == x,
            None => !entry_map(old(v)@).contains_key(k@),
        },
        has_key(old(v)@, k@) ==> exists|i: int|
            0 <= i < old(v)@.len() && old(v)@[i].0@ == k@ && final(v)@ == old(v)@.remove(i),
        !has_key(old(v)@, k@) ==> final(v)@ == old(v)@,
{
    let ghost old_v = v@;
    match find_index(v, k) {
        Some(i) => {
            proof {
                lemma_entry_at(old_v, i as int);
            }
            let e = v.remove(i);
            proof {
                let n = old_v.len() as int;
                assert forall|a: int| 0 <= a < v@.len() implies v@[a] == old_v[if a < i {
                    a
                } else {
                    a + 1
                }] by {}
                assert(distinct(v@)) by {
                    assert forall|a: int, b: int|
                        0 <= a < v@.len() && 0 <= b < v@.len() && a != b implies v@[a].0@
                        != v@[b].0@ by {
                        let a2 = if a < i {
                            a
                        } else {
                            a + 1
                        };
                        let b2 = if b < i {
                            b
                        } else {
                            b + 1
                        };
                        assert(v@[a] == old_v[a2]);
                        assert(v@[b] == old_v[b2]);
                    }
                }
                assert forall|q: Seq<char>| entry_map(v@).contains_key(q) <==> entry_map(
                    old_v,
                ).remove(k@).contains_key(q) by {
                    if has_key(v@, q) {
                        let j = choose|j: int| 0 <= j < v@.len() && v@[j].0@ == q;
                        let j2 = if j < i {
                            j
                        } else {
                            j + 1
                        };
                        assert(v@[j] == old_v[j2]);
                        assert(j2 != i);
                    }
                    if has_key(old_v, q) && q != k@ {
                        let j = choose|j: int| 0 <= j < old_v.len() && old_v[j].0@ == q;
                        assert(j != i);
                        let j2 = if j < i {
                            j
                        } else {
                            j - 1
                        };
                        assert(v@[j2] == old_v[j]);
                    }
                }
                assert forall|q: Seq<char>| #[trigger]
                    entry_map(v@).contains_key(q) implies entry_map(v@)[q] == entry_map(
                    old_v,
                ).remove(k@)[q] by {
                    let j = choose|j: int| 0 <= j < v@.len() && v@[j].0@ == q;
                    lemma_entry_at(v@, j);
                    let j2 = if j < i {
                        j
                    } else {
                        j + 1
                    };
                    assert(v@[j] == old_v[j2]);
                    lemma_entry_at(old_v, j2);
                }
                assert(entry_map(v@) =~= entry_map(old_v).remove(k@));
            }
            Some(e.1)
        },
        None => {
            assert(entry_map(old_v).remove(k@) =~= entry_map(old_v));
            None
        },
    }
}

} // verus!
