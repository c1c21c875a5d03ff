//! URL query strings: percent-decoding and `key=value&...` parsing.

use vstd::prelude::*;
use vstd::utf8::{decode_utf8, encode_utf8, valid_utf8};

use crate::matcher::lookup;
use crate::text::{chars_of, first_index, first_index_of, split_chars, split_spec, string_from_range, views};

verus! {

broadcast use vstd::string::group_string_axioms;

// ==================== outside call ====================

/// The text `String::from_utf8_lossy` makes of `bytes` (invalid sequences
/// become U+FFFD). A function of the bytes alone.
pub uninterp spec fn lossy_text(bytes: Seq<u8>) -> Seq<char>;

/// Decodes bytes as UTF-8, replacing invalid sequences
/// (`String::from_utf8_lossy`). For valid UTF-8 the result is the decoded
/// text; otherwise it is named, not described.
#[verifier::external_body]
pub(crate) fn utf8_lossy(bytes: &[u8]) -> (r: String)
    ensures
        r@ == lossy_text(bytes@),
        valid_utf8(bytes@) ==> r@ == decode_utf8(bytes@),
{
    String::from_utf8_lossy(bytes).into_owned()
}

// ==================== percent-decoding ====================

/// Value of a hexadecimal digit byte.
pub open spec fn hex_value(c: u8) -> Option<u8> {
    if 48 <= c <= 57 {
        Some((c - 48) as u8)
    } else if 97 <= c <= 102 {
        Some((c - 97 + 10) as u8)
    } else if 65 <= c <= 70 {
        Some((c - 65 + 10) as u8)
    } else {
        None
    }
}

/// Value of a hexadecimal digit byte (`0-9`, `a-f`, `A-F`).
pub fn hex(c: u8) -> (r: Option<u8>)
    ensures
        r == hex_value(c),
{
    if 48 <= c && c <= 57 {
        Some(c - 48)
    } else if 97 <= c && c <= 102 {
        Some(c - 97 + 10)
    } else if 65 <= c && c <= 70 {
        Some(c - 65 + 10)
    } else {
        None
    }
}

/// Percent-decoding of `b[i..]`: `+` becomes a space; `%` followed by two
/// hex digits becomes that byte; every other byte is kept.
pub open spec fn decode_from(b: Seq<u8>, i: int) -> Seq<u8>
    decreases b.len() - i,
{
    if i < 0 || i >= b.len() {
        Seq::empty()
    } else if b[i] == 43u8 {
        seq![32u8] + decode_from(b, i + 1)
    } else if b[i] == 37u8 && i + 2 < b.len() && hex_value(b[i + 1]) is Some && hex_value(
        b[i + 2],
    ) is Some {
        seq![(hex_value(b[i + 1]).unwrap() * 16 + hex_value(b[i + 2]).unwrap()) as u8] + decode_from(
            b,
            i + 3,
        )
    } else {
        seq![b[i]] + decode_from(b, i + 1)
    }
}

/// The decoded text of a URL component.
pub open spec fn url_decoded(s: Seq<char>) -> Seq<char> {
    lossy_text(decode_from(encode_utf8(s), 0))
}

/// Percent-decodes a URL component (see [`decode_from`]) and reads the
/// bytes as UTF-8, replacing invalid sequences: when the decoded bytes are
/// valid UTF-8, the result is exactly the text they encode.
pub fn url_decode(s: &str) -> (r: String)
    ensures
        r@ == url_decoded(s@),
        valid_utf8(decode_from(encode_utf8(s@), 0)) ==> r@ == decode_utf8(decode_from(encode_utf8(s@), 0)),
{
    let bytes = s.as_bytes();
    let mut out: Vec<u8> = Vec::new();
    let mut i: usize = 0;
    while i < bytes.len()
        invariant
            i <= bytes.len(),
            bytes@ == encode_utf8(s@),
            decode_from(bytes@, 0) == out@ + decode_from(bytes@, i as int),
        decreases bytes.len() - i,
    {
        let b = bytes[i];
        if b == 43u8 {
            out.push(32u8);
            assert(out@ + decode_from(bytes@, i + 1) =~= out@.drop_last() + (seq![32u8]
                + decode_from(bytes@, i + 1)));
            i += 1;
        } else if b == 37u8 && bytes.len() - i > 2 {
            let hi = hex(bytes[i + 1]);
            let lo = hex(bytes[i + 2]);
            if hi.is_some() && lo.is_some() {
                let h = hi.unwrap();
                let l = lo.unwrap();
                assert(h < 16 && l < 16);
                let v: u8 = h * 16 + l;
                let ghost before = out@;
                out.push(v);
                assert(out@ + decode_from(bytes@, i + 3) =~= before + (seq![v] + decode_from(
                    bytes@,
                    i + 3,
                )));
                i += 3;
            } else {
                let ghost before = out@;
                out.push(b);
                assert(out@ + decode_from(bytes@, i + 1) =~= before + (seq![b] + decode_from(
                    bytes@,
                    i + 1,
                )));
                i += 1;
            }
        } else {
            let ghost before = out@;
            out.push(b);
            assert(out@ + decode_from(bytes@, i + 1) =~= before + (seq![b] + decode_from(
                bytes@,
                i + 1,
            )));
            i += 1;
        }
    }
    assert(out@ + Seq::<u8>::empty() =~= out@);
    utf8_lossy(out.as_slice())
}

// ==================== query strings ====================

/// The key and value a query piece contributes: both decoded; a piece
/// without `=` gives an empty value.
pub open spec fn piece_pair(piece: Seq<char>) -> (Seq<char>, Seq<char>) {
    match first_index_of(piece, '=') {
        Some(i) => (
            url_decoded(piece.subrange(0, i)),
            url_decoded(piece.subrange(i + 1, piece.len() as int)),
        ),
        None => (url_decoded(piece), Seq::empty()),
    }
}

/// The map built from the pieces in order (empty pieces are skipped; a later
/// key replaces an earlier one).
pub open spec fn pieces_map(pieces: Seq<Seq<char>>) -> Map<Seq<char>, Seq<char>>
    decreases pieces.len(),
{
    if pieces.len() == 0 {
        Map::empty()
    } else {
        let m = pieces_map(pieces.drop_last());
        let p = pieces.last();
        if p.len() == 0 {
            m
        } else {
            m.insert(piece_pair(p).0, piece_pair(p).1)
        }
    }
}

/// The parameters of a query string (`None`: no parameters).
pub open spec fn query_map(q: Option<Seq<char>>) -> Map<Seq<char>, Seq<char>> {
    match q {
        None => Map::empty(),
        Some(s) => pieces_map(split_spec(s, '&')),
    }
}

/// The keys of a pair list are pairwise distinct.
pub open spec fn distinct_keys(v: Seq<(String, String)>) -> bool {
    forall|i: int, j: int| 0 <= i < j < v.len() ==> v[i].0@ != v[j].0@
}

/// A pair list with distinct keys represents the map `m`.
pub open spec fn represents(v: Seq<(String, String)>, m: Map<Seq<char>, Seq<char>>) -> bool {
    &&& distinct_keys(v)
    &&& forall|k: Seq<char>| #[trigger]
        lookup(v, k, false) == (if m.contains_key(k) {
            Some(m[k])
        } else {
            None
        })
}

/// `lookup` finds the entry at the key's index.
proof fn lemma_lookup_index(v: Seq<(String, String)>, k: Seq<char>)
    ensures
        match lookup(v, k, false) {
            Some(x) => exists|i: int| 0 <= i < v.len() && v[i].0@ == k && v[i].1@ == x && forall|j: int|
                0 <= j < i ==> v[j].0@ != k,
            None => forall|j: int| 0 <= j < v.len() ==> v[j].0@ != k,
        },
    decreases v.len(),
{
    if v.len() > 0 && v[0].0@ != k {
        lemma_lookup_index(v.drop_first(), k);
        match lookup(v.drop_first(), k, false) {
            Some(x) => {
                let i = choose|i: int|
                    0 <= i < v.drop_first().len() && v.drop_first()[i].0@ == k && v.drop_first()[i].1@
                        == x && forall|j: int| 0 <= j < i ==> v.drop_first()[j].0@ != k;
                assert(v[i + 1] == v.drop_first()[i]);
                assert forall|j: int| 0 <= j < i + 1 implies v[j].0@ != k by {
                    if j > 0 {
                        assert(v[j] == v.drop_first()[j - 1]);
                    }
                }
            },
            None => {
                assert forall|j: int| 0 <= j < v.len() implies v[j].0@ != k by {
                    if j > 0 {
                        assert(v[j] == v.drop_first()[j - 1]);
                    }
                }
            },
        }
    }
}

/// With distinct keys, `lookup` gives the value at any index holding the key.
proof fn lemma_lookup_at(v: Seq<(String, String)>, i: int)
    requires
        distinct_keys(v),
        0 <= i < v.len(),
    ensures
        lookup(v, v[i].0@, false) == Some(v[i].1@),
{
    lemma_lookup_index(v, v[i].0@);
    match lookup(v, v[i].0@, false) {
        Some(x) => {
            let m = choose|m: int|
                0 <= m < v.len() && v[m].0@ == v[i].0@ && v[m].1@ == x && forall|j: int|
                    0 <= j < m ==> v[j].0@ != v[i].0@;
            if m != i {
                if m < i {
                    assert(v[m].0@ != v[i].0@);
                } else {
                    assert(v[i].0@ != v[m].0@);
                }
            }
        },
        None => {},
    }
}

/// Inserts `(k, x)`, replacing the value of an existing key.
fn insert_pair(v: &mut Vec<(String, String)>, k: String, x: String, Ghost(m): Ghost<
    Map<Seq<char>, Seq<char>>,
>)
    requires
        represents(old(v)@, m),
    ensures
        represents(final(v)@, m.insert(k@, x@)),
{
    let ghost k_view = k@;
    let ghost x_view = x@;
    let mut i: usize = 0;
    while i < v.len()
        invariant
            i <= v.len(),
            v@ == old(v)@,
            represents(v@, m),
            k@ == k_view,
            x@ == x_view,
            forall|j: int| 0 <= j < i ==> v@[j].0@ != k_view,
        decreases v.len() - i,
    {
        if str_is(v[i].0.as_str(), k.as_str()) {
            let ghost before = v@;
            let key = v[i].0.clone();
            v.set(i, (key, x));
            proof {
                let nm = m.insert(k_view, x_view);
                assert(distinct_keys(v@)) by {
                    assert forall|a: int, b: int| 0 <= a < b < v@.len() implies v@[a].0@ != v@[b].0@ by {
                        assert(v@[a].0@ == before[a].0@);
                        assert(v@[b].0@ == before[b].0@);
                    }
                }
                assert forall|q: Seq<char>| #[trigger] lookup(v@, q, false) == (if nm.contains_key(q) {
                    Some(nm[q])
                } else {
                    None
                }) by {
                    lemma_lookup_index(v@, q);
                    lemma_lookup_index(before, q);
                    if q == k_view {
                        assert(v@[i as int].0@ == k_view);
                        assert(v@[i as int].1@ == x_view);
                        lemma_lookup_at(v@, i as int);
                    } else {
                        assert(lookup(before, q, false) == (if m.contains_key(q) {
                            Some(m[q])
                        } else {
                            None
                        }));
                        match lookup(before, q, false) {
                            Some(y) => {
                                let a = choose|a: int|
                                    0 <= a < before.len() && before[a].0@ == q && before[a].1@ == y
                                        && forall|j: int| 0 <= j < a ==> before[j].0@ != q;
                                assert(a != i);
                                assert(v@[a] == before[a]);
                                lemma_lookup_at(v@, a);
                                assert(m.contains_key(q) && m[q] == y);
                            },
                            None => {
                                assert forall|j: int| 0 <= j < v@.len() implies v@[j].0@ != q by {
                                    assert(v@[j].0@ == before[j].0@);
                                }
                                match lookup(v@, q, false) {
                                    Some(_) => {},
                                    None => {},
                                }
                            },
                        }
                    }
                }
            }
            return;
        }
        i += 1;
    }
    let ghost before = v@;
    v.push((k, x));
    proof {
        let nm = m.insert(k_view, x_view);
        assert(distinct_keys(v@)) by {
            assert forall|a: int, b: int| 0 <= a < b < v@.len() implies v@[a].0@ != v@[b].0@ by {
                if b == before.len() {
                    assert(before[a].0@ != k_view);
                } else {
                    assert(v@[a] == before[a]);
                    assert(v@[b] == before[b]);
                }
            }
        }
        assert forall|q: Seq<char>| #[trigger] lookup(v@, q, false) == (if nm.contains_key(q) {
            Some(nm[q])
        } else {
            None
        }) by {
            lemma_lookup_index(v@, q);
            lemma_lookup_index(before, q);
            if q == k_view {
                lemma_lookup_at(v@, before.len() as int);
            } else {
                match lookup(before, q, false) {
                    Some(y) => {
                        let a = choose|a: int|
                            0 <= a < before.len() && before[a].0@ == q && before[a].1@ == y && forall|j: int|
                                0 <= j < a ==> before[j].0@ != q;
                        assert(v@[a] == before[a]);
                        lemma_lookup_at(v@, a);
                    },
                    None => {
                        assert forall|j: int| 0 <= j < v@.len() implies v@[j].0@ != q by {
                            if j < before.len() {
                                assert(v@[j] == before[j]);
                            }
                        }
                        match lookup(v@, q, false) {
                            Some(_) => {},
                            None => {},
                        }
                    },
                }
            }
        }
    }
}

/// Whether two strings are equal.
fn str_is(a: &str, b: &str) -> (r: bool)
    ensures
        r == (a@ == b@),
{
    crate::text::str_eq(a, b)
}

/// The key and value of one query piece.
fn piece_to_pair(piece: &String) -> (r: (String, String))
    ensures
        (r.0@, r.1@) == piece_pair(piece@),
{
    let v = chars_of(piece.as_str());
    proof {
        crate::text::lemma_first_index_of(v@, '=');
    }
    match first_index(&v, '=') {
        Some(i) => {
            let k = string_from_range(&v, 0, i);
            let x = string_from_range(&v, i + 1, v.len());
            (url_decode(k.as_str()), url_decode(x.as_str()))
        },
        None => (url_decode(piece.as_str()), String::new()),
    }
}

/// Parses a query string into its parameters, one entry per key (a later
/// key replaces an earlier value; empty pieces are skipped; keys and values
/// are percent-decoded).
pub fn parse_query(q: Option<&str>) -> (r: Vec<(String, String)>)
    ensures
        represents(
            r@,
            query_map(
                match q {
                    Some(s) => Some(s@),
                    None => None,
                },
            ),
        ),
{
    let mut m: Vec<(String, String)> = Vec::new();
    proof {
        assert forall|k: Seq<char>| #[trigger] lookup(m@, k, false) == (if Map::<
            Seq<char>,
            Seq<char>,
        >::empty().contains_key(k) {
            Some(Map::<Seq<char>, Seq<char>>::empty()[k])
        } else {
            None
        }) by {}
    }
    match q {
        None => m,
        Some(s) => {
            let sv = chars_of(s);
            let pieces = split_chars(&sv, '&');
            let ghost ps = views(pieces@);
            let mut i: usize = 0;
            assert(ps.take(0) =~= Seq::<Seq<char>>::empty());
            while i < pieces.len()
                invariant
                    i <= pieces.len(),
                    ps == views(pieces@),
                    ps == split_spec(s@, '&'),
                    represents(m@, pieces_map(ps.take(i as int))),
                decreases pieces.len() - i,
            {
                assert(ps.take(i + 1).drop_last() == ps.take(i as int));
                assert(ps.take(i + 1).last() == ps[i as int]);
                let piece = &pieces[i];
                if !piece.as_str().is_empty() {
                    let (k, x) = piece_to_pair(piece);
                    insert_pair(&mut m, k, x, Ghost(pieces_map(ps.take(i as int))));
                }
                i += 1;
            }
            assert(ps.take(pieces.len() as int) == ps);
            m
        },
    }
}

// ==================== laws ====================

/// An ASCII hexadecimal digit: `0-9`, `a-f` or `A-F`.
pub open spec fn is_hex_digit(c: u8) -> bool {
    (48 <= c <= 57) || (97 <= c <= 102) || (65 <= c <= 70)
}

/// The upper-case form of a letter `a-f`; every other byte unchanged.
pub open spec fn hex_upper(c: u8) -> u8 {
    if 97 <= c <= 102 {
        (c - 32) as u8
    } else {
        c
    }
}

/// The value of a hexadecimal digit read in upper case: `0-9` are 0 to 9,
/// `A-F` are 10 to 15.
pub open spec fn digit_of(c: u8) -> int {
    let u = hex_upper(c);
    if u <= 57 {
        u - 48
    } else {
        u - 55
    }
}

proof fn lemma_decode_shift(p: Seq<u8>, rest: Seq<u8>, i: int)
    requires
        0 <= i,
    ensures
        decode_from(p + rest, p.len() + i) == decode_from(rest, i),
    decreases rest.len() - i,
{
    let b = p + rest;
    let n = p.len() as int;
    if i < rest.len() {
        assert(b[n + i] == rest[i]);
        if i + 1 < rest.len() {
            assert(b[n + i + 1] == rest[i + 1]);
        }
        if i + 2 < rest.len() {
            assert(b[n + i + 2] == rest[i + 2]);
        }
        lemma_decode_shift(p, rest, i + 1);
        if i + 3 <= rest.len() {
            lemma_decode_shift(p, rest, i + 3);
        }
    }
}

/// A percent escape `%xy` of two hexadecimal digits, in either letter case,
/// decodes to the single byte `16·x + y`, and the rest is decoded on its own;
/// so writing the letters of an escape in lower or upper case decodes the
/// same (`%2f` and `%2F` both give `/`).
pub proof fn law_percent_escape_any_case(x: u8, y: u8, rest: Seq<u8>)
    requires
        is_hex_digit(x),
        is_hex_digit(y),
    ensures
        decode_from(seq![37u8, x, y] + rest, 0) == seq![(16 * digit_of(x) + digit_of(y)) as u8] + decode_from(rest, 0),
        decode_from(seq![37u8, x, y] + rest, 0) == decode_from(seq![37u8, hex_upper(x), hex_upper(y)] + rest, 0),
{
    let b = seq![37u8, x, y] + rest;
    assert(b[0] == 37u8 && b[1] == x && b[2] == y);
    lemma_decode_shift(seq![37u8, x, y], rest, 0);
    let c = seq![37u8, hex_upper(x), hex_upper(y)] + rest;
    assert(c[0] == 37u8 && c[1] == hex_upper(x) && c[2] == hex_upper(y));
    lemma_decode_shift(seq![37u8, hex_upper(x), hex_upper(y)], rest, 0);
}

/// The other decoding steps: `+` becomes a space; a `%` not followed by two
/// hexadecimal digits, and every byte other than `%` and `+`, is kept as it
/// is; in each case the rest is decoded on its own.
pub proof fn law_plus_and_plain_bytes(c: u8, rest: Seq<u8>)
    ensures
        c == 43u8 ==> decode_from(seq![c] + rest, 0) == seq![32u8] + decode_from(rest, 0),
        c != 43u8 && c != 37u8 ==> decode_from(seq![c] + rest, 0) == seq![c] + decode_from(rest, 0),
        c == 37u8 && !(rest.len() >= 2 && is_hex_digit(rest[0]) && is_hex_digit(rest[1])) ==> decode_from(
            seq![c] + rest,
            0,
        ) == seq![37u8] + decode_from(rest, 0),
{
    let b = seq![c] + rest;
    assert(b[0] == c);
    if rest.len() >= 1 {
        assert(b[1] == rest[0]);
    }
    if rest.len() >= 2 {
        assert(b[2] == rest[1]);
    }
    lemma_decode_shift(seq![c], rest, 0);
}

} // verus!
