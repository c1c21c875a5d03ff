//! Audit records of management operations (storage lives outside this crate).

use vstd::prelude::*;

use crate::auth::{bearer_from_header, bearer_token, role_name, Role};
use crate::clock::{new_uuid, now_rfc3339, uuid_shaped};
use crate::paging::{count_i64, page, sort_desc, sorted_desc, str_less, SortKey};
use crate::text::str_eq;

verus! {

broadcast use vstd::string::group_string_axioms;

/// One audit record.
#[derive(Debug)]
pub struct AuditEntry {
    pub id: String,
    /// RFC 3339 timestamp.
    pub timestamp: String,
    /// `admin` / `viewer`, or `local` when no role is known.
    pub actor: String,
    /// Operation name (`server_start`, `mock_remove`, ...).
    pub action: String,
    /// Object type (`server`, `mock`, `event`, `config`, `log`, `client`, ...).
    pub target_type: String,
    pub target_id: Option<String>,
    /// Extra detail as JSON text.
    pub detail: Option<String>,
    /// `success` or `failure`.
    pub result: String,
}

impl Clone for AuditEntry {
    fn clone(&self) -> (r: Self)
        ensures
            r == *self,
    {
        AuditEntry {
            id: self.id.clone(),
            timestamp: self.timestamp.clone(),
            actor: self.actor.clone(),
            action: self.action.clone(),
            target_type: self.target_type.clone(),
            target_id: self.target_id.clone(),
            detail: self.detail.clone(),
            result: self.result.clone(),
        }
    }
}

impl SortKey for AuditEntry {
    open spec fn primary(&self) -> Seq<char> {
        self.timestamp@
    }

    open spec fn secondary(&self) -> Seq<char> {
        Seq::empty()
    }

    fn key_less(&self, other: &Self) -> (r: bool) {
        str_less(self.timestamp.as_str(), other.timestamp.as_str())
    }
}

/// Query of the audit log (page and optional exact filters).
#[derive(Debug)]
pub struct AuditQuery {
    pub limit: i64,
    pub offset: i64,
    pub action: Option<String>,
    pub target_type: Option<String>,
}

/// The page size a query without one takes: 100.
pub fn default_limit() -> (r: i64)
    ensures
        r == 100,
{
    100
}

impl Default for AuditQuery {
    fn default() -> (r: Self)
        ensures
            r.limit == 0,
            r.offset == 0,
            r.action is None,
            r.target_type is None,
    {
        AuditQuery { limit: 0, offset: 0, action: None, target_type: None }
    }
}

/// One page of audit records and the number of matching records.
#[derive(Debug)]
pub struct AuditPage {
    pub total: i64,
    pub items: Vec<AuditEntry>,
}

/// The token of an `Authorization` value `Bearer <token>`.
pub fn parse_bearer(header: &str) -> (r: Option<String>)
    ensures
        match r {
            Some(t) => bearer_token(header@) == Some(t@),
            None => bearer_token(header@) is None,
        },
{
    bearer_from_header(header)
}

/// The role an operation is recorded under: `Admin` while authentication is
/// off, otherwise the role its token verified to (`None`: unknown).
pub fn actor_role(auth_enabled: bool, verified: Option<Role>) -> (r: Option<Role>)
    ensures
        r == (if auth_enabled {
            verified
        } else {
            Some(Role::Admin)
        }),
{
    if !auth_enabled {
        Some(Role::Admin)
    } else {
        verified
    }
}

/// The actor text of a role: its name, or `local` when unknown.
pub open spec fn actor_name(role: Option<Role>) -> Seq<char> {
    match role {
        Some(r) => role_name(r),
        None => "local"@,
    }
}

/// A new audit record with a fresh id and the current time.
pub fn make_audit_entry(
    role: Option<Role>,
    action: &str,
    target_type: &str,
    target_id: Option<String>,
    detail: Option<String>,
    success: bool,
) -> (r: AuditEntry)
    ensures
        uuid_shaped(r.id@),
        r.timestamp@.len() > 0,
        r.actor@ == actor_name(role),
        r.action@ == action@,
        r.target_type@ == target_type@,
        r.target_id == target_id,
        r.detail == detail,
        r.result@ == (if success {
            "success"@
        } else {
            "failure"@
        }),
{
    let actor = match role {
        Some(r) => r.as_str().to_owned(),
        None => "local".to_owned(),
    };
    AuditEntry {
        id: new_uuid(),
        timestamp: now_rfc3339(),
        actor,
        action: action.to_owned(),
        target_type: target_type.to_owned(),
        target_id,
        detail,
        result: if success {
            "success".to_owned()
        } else {
            "failure".to_owned()
        },
    }
}


/// A record matches a query: the exact action and object type asked for, if any.
pub open spec fn audit_matches(e: AuditEntry, q: AuditQuery) -> bool {
    &&& match q.action {
        Some(a) => e.action@ == a@,
        None => true,
    }
    &&& match q.target_type {
        Some(t) => e.target_type@ == t@,
        None => true,
    }
}

/// The records matching a query, in the order they were recorded.
pub open spec fn audit_filter(s: Seq<AuditEntry>, q: AuditQuery) -> Seq<AuditEntry>
    decreases s.len(),
{
    if s.len() == 0 {
        s
    } else {
        let r = audit_filter(s.drop_last(), q);
        if audit_matches(s.last(), q) {
            r.push(s.last())
        } else {
            r
        }
    }
}

/// The audit log: records in the order they were recorded.
pub struct AuditManager {
    entries: Vec<AuditEntry>,
}

impl View for AuditManager {
    type V = Seq<AuditEntry>;

    closed spec fn view(&self) -> Seq<AuditEntry> {
        self.entries@
    }
}

impl AuditManager {
    /// An audit log holding `entries` (as loaded from storage), oldest first.
    pub fn new(entries: Vec<AuditEntry>) -> (r: Self)
        ensures
            r@ == entries@,
    {
        AuditManager { entries }
    }

    /// Appends a record.
    pub fn record(&mut self, entry: AuditEntry)
        ensures
            final(self)@ == old(self)@.push(entry),
    {
        self.entries.push(entry);
    }

    /// A page of the matching records, newest first, and how many match
    /// (records with equal timestamps may come in either order).
    pub fn query(&self, q: &AuditQuery) -> (r: AuditPage)
        ensures
            r.total == (if audit_filter(self@, *q).len() <= i64::MAX {
                audit_filter(self@, *q).len() as int
            } else {
                i64::MAX as int
            }),
            exists|s: Seq<AuditEntry>| {
                &&& sorted_desc(s)
                &&& s.to_multiset() == audit_filter(self@, *q).to_multiset()
                &&& r.items@ == page(s, q.limit, q.offset)
            },
    {
        let mut matching: Vec<AuditEntry> = Vec::new();
        let mut i: usize = 0;
        while i < self.entries.len()
            invariant
                i <= self.entries@.len(),
                matching@ == audit_filter(self.entries@.take(i as int), *q),
            decreases self.entries.len() - i,
        {
            proof {
                assert(self.entries@.take(i + 1).drop_last() =~= self.entries@.take(i as int));
                assert(self.entries@.take(i + 1).last() == self.entries@[i as int]);
            }
            let e = &self.entries[i];
            let action_ok = match &q.action {
                Some(a) => str_eq(e.action.as_str(), a.as_str()),
                None => true,
            };
            let type_ok = match &q.target_type {
                Some(t) => str_eq(e.target_type.as_str(), t.as_str()),
                None => true,
            };
            if action_ok && type_ok {
                matching.push(e.clone());
            }
            i += 1;
        }
        proof {
            assert(self.entries@.take(self.entries@.len() as int) =~= self.entries@);
        }
        let total = count_i64(matching.len());
        let sorted = sort_desc(matching);
        let items = crate::paging::take_page(sorted, q.limit, q.offset);
        AuditPage { total, items }
    }
}

/// What was recorded can be read back: after recording `e`, a query that
/// `e` matches, starting at the first record and not limited below the
/// number of matches, lists `e`.
pub proof fn law_recorded_entry_is_found(before: Seq<AuditEntry>, e: AuditEntry, q: AuditQuery, s: Seq<AuditEntry>)
    requires
        audit_matches(e, q),
        q.offset <= 0,
        q.limit < 0 || q.limit >= audit_filter(before.push(e), q).len(),
        s.to_multiset() == audit_filter(before.push(e), q).to_multiset(),
    ensures
        page(s, q.limit, q.offset).contains(e),
{
    broadcast use vstd::seq_lib::group_to_multiset_ensures;

    let f = audit_filter(before.push(e), q);
    assert(before.push(e).drop_last() =~= before);
    assert(f == audit_filter(before, q).push(e));
    assert(f[f.len() - 1] == e);
    assert(f.contains(e));
    assert(f.to_multiset().count(e) > 0);
    assert(s.contains(e));
    assert(s.len() == f.len()) by {
        assert(s.to_multiset().len() == f.to_multiset().len());
    }
    assert(page(s, q.limit, q.offset) =~= s);
}

} // verus!
