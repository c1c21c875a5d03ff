//! IP allow list / deny list policy shared by every listener.

use vstd::prelude::*;

use crate::text::{list_contains, views};

verus! {

/// `ip` may connect: it is not denied, and the allow list is empty or holds it.
pub open spec fn ip_allowed(whitelist: Seq<Seq<char>>, blacklist: Seq<Seq<char>>, ip: Seq<char>) -> bool {
    !blacklist.contains(ip) && (whitelist.len() == 0 || whitelist.contains(ip))
}

/// Whether `ip` may connect: a denied address is refused, a non-empty allow
/// list admits only its members, anything else is admitted.
pub fn allow_ip(whitelist: &[String], blacklist: &[String], ip: &str) -> (r: bool)
    ensures
        r == ip_allowed(views(whitelist@), views(blacklist@), ip@),
{
    if list_contains(blacklist, ip) {
        return false;
    }
    if whitelist.len() != 0 && !list_contains(whitelist, ip) {
        return false;
    }
    true
}

/// The three rules of the IP policy: a denied address is refused even when
/// allowed; with an empty allow list every address that is not denied
/// connects; with a non-empty one only its members can.
pub proof fn law_ip_policy(whitelist: Seq<Seq<char>>, blacklist: Seq<Seq<char>>, ip: Seq<char>)
    ensures
        blacklist.contains(ip) ==> !ip_allowed(whitelist, blacklist, ip),
        whitelist.len() == 0 && !blacklist.contains(ip) ==> ip_allowed(whitelist, blacklist, ip),
        whitelist.len() > 0 && ip_allowed(whitelist, blacklist, ip) ==> whitelist.contains(ip),
{
}

} // verus!
