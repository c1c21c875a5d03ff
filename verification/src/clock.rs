//! Wall-clock time and random identifiers (outside the proofs' reach: both
//! depend on the moment or on chance, so only their shape is stated).

use vstd::prelude::*;

verus! {

/// Current UTC time as an RFC 3339 text (`chrono::Utc::now().to_rfc3339()`).
/// The value depends on the clock; only that it is a non-empty text is stated.
#[verifier::external_body]
pub fn now_rfc3339() -> (r: String)
    ensures
        r@.len() > 0,
{
    chrono::Utc::now().to_rfc3339()
}

/// Shape of the text form of a UUID: 36 characters with hyphens at
/// positions 8, 13, 18 and 23.
pub open spec fn uuid_shaped(s: Seq<char>) -> bool {
    &&& s.len() == 36
    &&& s[8] == '-'
    &&& s[13] == '-'
    &&& s[18] == '-'
    &&& s[23] == '-'
}

/// A fresh random identifier (`uuid::Uuid::new_v4().to_string()`, the
/// hyphenated form). The value is random; only its shape is stated.
#[verifier::external_body]
pub(crate) fn new_uuid() -> (r: String)
    ensures
        uuid_shaped(r@),
{
    uuid::Uuid::new_v4().to_string()
}

} // verus!
