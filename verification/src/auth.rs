//! Access control of the management API: roles, exempt paths, bearer
//! tokens and the read-only rule of the viewer role.
//!
//! The token table is kept here as rows `(token, role)`; storing the rows
//! is the caller's business. The request decisions take the verified role as
//! a plain value.

use vstd::prelude::*;

use crate::clock::{new_uuid, uuid_shaped};
use crate::constants::ADMIN_WS_PATH;
use crate::text::{chars_of, eq_ignore_ascii_case, eq_ignore_case, has_prefix, starts_with, str_eq, string_from_chars};

verus! {

broadcast use vstd::string::group_string_axioms;

/// Permission role: `Admin` may do everything, `Viewer` may only read.
#[derive(Debug, Clone, Copy, PartialEq, Eq, Structural)]
pub enum Role {
    Admin,
    Viewer,
}

impl Default for Role {
    fn default() -> (r: Self)
        ensures
            r == Role::Admin,
    {
        Role::Admin
    }
}

/// Lower-case name of a role.
pub open spec fn role_name(r: Role) -> Seq<char> {
    match r {
        Role::Admin => "admin"@,
        Role::Viewer => "viewer"@,
    }
}

impl Role {
    /// Lower-case name (`"admin"` / `"viewer"`).
    pub fn as_str(self) -> (r: &'static str)
        ensures
            r@ == role_name(self),
    {
        match self {
            Role::Admin => "admin",
            Role::Viewer => "viewer",
        }
    }

    /// Role named by a stored text: `"viewer"` is `Viewer`, anything else `Admin`.
    pub fn from_str(s: &str) -> (r: Role)
        ensures
            r == (if s@ == "viewer"@ {
                Role::Viewer
            } else {
                Role::Admin
            }),
    {
        if str_eq(s, "viewer") {
            Role::Viewer
        } else {
            Role::Admin
        }
    }
}

/// Answer of the bootstrap endpoint: the admin token and its role.
#[derive(Debug)]
pub struct BootstrapResponse {
    pub token: String,
    pub role: Role,
}

/// Paths that never need a token: the bootstrap and health endpoints, the
/// admin WebSocket, and everything outside `/api/`.
pub open spec fn exempt(path: Seq<char>) -> bool {
    path == "/api/auth/bootstrap"@ || path == "/api/health"@ || path == "/admin/ws"@ || !has_prefix(
        path,
        "/api/"@,
    )
}

/// Whether a path is exempt from authentication.
pub fn is_exempt(path: &str) -> (r: bool)
    ensures
        r == exempt(path@),
{
    str_eq(path, "/api/auth/bootstrap") || str_eq(path, "/api/health") || str_eq(
        path,
        ADMIN_WS_PATH,
    ) || !starts_with(path, "/api/")
}

// ==================== bearer tokens ====================

/// Unicode white space (`char::is_whitespace`): U+0009..=U+000D, U+0020,
/// U+0085, U+00A0, U+1680, U+2000..=U+200A, U+2028, U+2029, U+202F, U+205F
/// and U+3000.
pub open spec fn is_ws(c: char) -> bool {
    let u = c as u32;
    (9 <= u <= 13) || u == 32 || u == 0x85 || u == 0xA0 || u == 0x1680 || (0x2000 <= u
        <= 0x200A) || u == 0x2028 || u == 0x2029 || u == 0x202F || u == 0x205F || u == 0x3000
}

/// Whether `c` is white space.
pub fn is_whitespace(c: char) -> (r: bool)
    ensures
        r == is_ws(c),
{
    let u = c as u32;
    (9 <= u && u <= 13) || u == 32 || u == 0x85 || u == 0xA0 || u == 0x1680 || (0x2000 <= u && u
        <= 0x200A) || u == 0x2028 || u == 0x2029 || u == 0x202F || u == 0x205F || u == 0x3000
}

/// The maximal runs of non-white-space characters (`str::split_whitespace`).
pub open spec fn ws_tokens(s: Seq<char>) -> Seq<Seq<char>>
    decreases s.len(),
{
    if s.len() == 0 {
        Seq::empty()
    } else {
        let t = ws_tokens(s.drop_last());
        let c = s.last();
        if is_ws(c) {
            t
        } else if s.len() >= 2 && !is_ws(s[s.len() - 2]) && t.len() > 0 {
            t.update(t.len() - 1, t.last().push(c))
        } else {
            t.push(seq![c])
        }
    }
}

/// The white-space separated words of a text.
pub fn split_whitespace(s: &str) -> (r: Vec<String>)
    ensures
        crate::text::views(r@) == ws_tokens(s@),
{
    let v = chars_of(s);
    let mut toks: Vec<Vec<char>> = Vec::new();
    let mut i: usize = 0;
    while i < v.len()
        invariant
            i <= v.len(),
            v@ == s@,
            toks@.map_values(|t: Vec<char>| t@) == ws_tokens(s@.take(i as int)),
            i > 0 && !is_ws(s@[i - 1]) ==> toks@.len() > 0,
        decreases v.len() - i,
    {
        let ghost pre = s@.take(i as int);
        let ghost tv = toks@.map_values(|t: Vec<char>| t@);
        assert(s@.take(i + 1).drop_last() == pre);
        assert(s@.take(i + 1).last() == s@[i as int]);
        let c = v[i];
        if is_whitespace(c) {
        } else if i >= 1 && !is_whitespace(v[i - 1]) && toks.len() > 0 {
            assert(s@.take(i + 1)[i - 1] == s@[i - 1]);
            let last = toks.len() - 1;
            let mut t = toks[last].clone();
            assert(t@ =~= toks@[last as int]@);
            t.push(c);
            toks.set(last, t);
            assert(toks@.map_values(|t: Vec<char>| t@) =~= tv.update(
                tv.len() - 1,
                tv.last().push(c),
            ));
        } else {
            if i >= 1 {
                assert(s@.take(i + 1)[i - 1] == s@[i - 1]);
            }
            let mut t: Vec<char> = Vec::new();
            t.push(c);
            toks.push(t);
            assert(toks@.map_values(|t: Vec<char>| t@) =~= tv.push(seq![c]));
        }
        i += 1;
    }
    assert(s@.take(v.len() as int) == s@);
    let mut out: Vec<String> = Vec::new();
    let mut k: usize = 0;
    while k < toks.len()
        invariant
            k <= toks.len(),
            crate::text::views(out@) == toks@.map_values(|t: Vec<char>| t@).take(k as int),
        decreases toks.len() - k,
    {
        let ghost before = crate::text::views(out@);
        out.push(string_from_chars(&toks[k]));
        assert(crate::text::views(out@) =~= before.push(toks@[k as int]@));
        assert(toks@.map_values(|t: Vec<char>| t@).take(k + 1) =~= toks@.map_values(
            |t: Vec<char>| t@,
        ).take(k as int).push(toks@[k as int]@));
        k += 1;
    }
    assert(toks@.map_values(|t: Vec<char>| t@).take(toks.len() as int) == toks@.map_values(
        |t: Vec<char>| t@,
    ));
    out
}

/// The token of an `Authorization` value `Bearer <token>`: the second word
/// when the first is `Bearer` up to ASCII case.
pub open spec fn bearer_token(header: Seq<char>) -> Option<Seq<char>> {
    let t = ws_tokens(header);
    if t.len() >= 2 && eq_ignore_ascii_case(t[0], "Bearer"@) {
        Some(t[1])
    } else {
        None
    }
}

/// Parses an `Authorization` value of the form `Bearer <token>`.
pub fn bearer_from_header(header: &str) -> (r: Option<String>)
    ensures
        match r {
            Some(t) => bearer_token(header@) == Some(t@),
            None => bearer_token(header@) is None,
        },
{
    let words = split_whitespace(header);
    if words.len() >= 2 && eq_ignore_case(words[0].as_str(), "Bearer") {
        Some(words[1].clone())
    } else {
        None
    }
}

// ==================== roles and methods ====================

/// Methods that only read: `GET`, `HEAD` and `OPTIONS`.
pub open spec fn readonly_method(method: Seq<char>) -> bool {
    method == "GET"@ || method == "HEAD"@ || method == "OPTIONS"@
}

/// Whether a request method only reads.
pub fn is_readonly_method(method: &str) -> (r: bool)
    ensures
        r == readonly_method(method@),
{
    str_eq(method, "GET") || str_eq(method, "HEAD") || str_eq(method, "OPTIONS")
}

/// A viewer may not use a method that writes.
pub open spec fn write_forbidden(role: Role, method: Seq<char>) -> bool {
    role == Role::Viewer && !readonly_method(method)
}

/// Whether the read-only rule forbids this request (viewer + writing method).
pub fn viewer_write_forbidden(role: Role, method: &str) -> (r: bool)
    ensures
        r == write_forbidden(role, method@),
{
    role == Role::Viewer && !is_readonly_method(method)
}

/// Outcome of the authentication gate.
#[derive(Debug, Clone, Copy, PartialEq, Eq, Structural)]
pub enum AuthOutcome {
    /// Let the request through.
    Pass,
    /// 403: a viewer tried to write.
    Forbidden,
    /// 401: missing or invalid token.
    Unauthorized,
}

/// Authentication of a request: allowed while authentication is off or the
/// path is exempt; otherwise a token whose role is known (`verified`) is
/// needed, and a viewer may only read.
pub open spec fn auth_outcome_spec(
    enabled: bool,
    path: Seq<char>,
    verified: Option<Role>,
    method: Seq<char>,
) -> AuthOutcome {
    if !enabled || exempt(path) {
        AuthOutcome::Pass
    } else {
        match verified {
            Some(role) => if write_forbidden(role, method) {
                AuthOutcome::Forbidden
            } else {
                AuthOutcome::Pass
            },
            None => AuthOutcome::Unauthorized,
        }
    }
}

/// Decides a request: `verified` is the role of the request's bearer token
/// (`None` when there is no token or it does not verify).
pub fn auth_outcome(enabled: bool, path: &str, verified: Option<Role>, method: &str) -> (r:
    AuthOutcome)
    ensures
        r == auth_outcome_spec(enabled, path@, verified, method@),
{
    if !enabled || is_exempt(path) {
        return AuthOutcome::Pass;
    }
    match verified {
        Some(role) => {
            if viewer_write_forbidden(role, method) {
                AuthOutcome::Forbidden
            } else {
                AuthOutcome::Pass
            }
        },
        None => AuthOutcome::Unauthorized,
    }
}

// ==================== the token table ====================

/// Role text of the admin token's row.
pub const ADMIN_ROLE: &'static str = "admin";

/// Whether the setting text of the authentication switch turns it on:
/// `1`, or `true` up to ASCII case. A missing setting leaves it off.
pub open spec fn switch_on(v: Option<Seq<char>>) -> bool {
    match v {
        Some(t) => t == "1"@ || eq_ignore_ascii_case(t, "true"@),
        None => false,
    }
}

/// Reads the authentication switch (off unless `1` or `true`).
pub fn auth_switch(v: Option<&str>) -> (r: bool)
    ensures
        r == switch_on(match v {
            Some(t) => Some(t@),
            None => None,
        }),
{
    match v {
        Some(t) => str_eq(t, "1") || eq_ignore_case(t, "true"),
        None => false,
    }
}

/// Row `i` is the first row of token `t`.
pub open spec fn token_at(rows: Seq<(String, String)>, t: Seq<char>, i: int) -> bool {
    &&& 0 <= i < rows.len()
    &&& rows[i].0@ == t
    &&& forall|j: int| 0 <= j < i ==> rows[j].0@ != t
}

/// Row `i` is the first row with the admin role.
pub open spec fn admin_at(rows: Seq<(String, String)>, i: int) -> bool {
    &&& 0 <= i < rows.len()
    &&& rows[i].1@ == ADMIN_ROLE@
    &&& forall|j: int| 0 <= j < i ==> rows[j].1@ != ADMIN_ROLE@
}

/// Some row has the admin role.
pub open spec fn has_admin(rows: Seq<(String, String)>) -> bool {
    exists|j: int| 0 <= j < rows.len() && rows[j].1@ == ADMIN_ROLE@
}

/// No two rows share a token (the table's key).
pub open spec fn keyed_by_token(rows: Seq<(String, String)>) -> bool {
    forall|i: int, j: int| 0 <= i < rows.len() && 0 <= j < rows.len() && i != j ==> rows[i].0@ != rows[j].0@
}

/// The role a token verifies to: none for the empty token, else the role
/// named by the first row of the token, none when there is no such row.
pub open spec fn verified_role(rows: Seq<(String, String)>, t: Seq<char>) -> Option<Role> {
    if t.len() == 0 {
        None
    } else if exists|i: int| token_at(rows, t, i) {
        let i = choose|i: int| token_at(rows, t, i);
        Some(if rows[i].1@ == "viewer"@ { Role::Viewer } else { Role::Admin })
    } else {
        None
    }
}

/// Index of the first row whose token (`by_role` false) or role (`by_role`
/// true) is `key`.
fn first_row(rows: &Vec<(String, String)>, key: &str, by_role: bool) -> (r: Option<usize>)
    ensures
        match r {
            Some(i) => i < rows@.len() && (if by_role { admin_at(rows@, i as int) || key@ != ADMIN_ROLE@ } else {
                token_at(rows@, key@, i as int)
            }) && (if by_role { rows@[i as int].1@ == key@ } else { true }),
            None => forall|j: int| 0 <= j < rows@.len() ==> (if by_role { rows@[j].1@ } else { rows@[j].0@ }) != key@,
        },
        by_role ==> match r {
            Some(i) => forall|j: int| 0 <= j < i ==> rows@[j].1@ != key@,
            None => true,
        },
{
    let mut i: usize = 0;
    while i < rows.len()
        invariant
            i <= rows@.len(),
            forall|j: int| 0 <= j < i ==> (if by_role { rows@[j].1@ } else { rows@[j].0@ }) != key@,
        decreases rows.len() - i,
    {
        let hit = if by_role { str_eq(rows[i].1.as_str(), key) } else { str_eq(rows[i].0.as_str(), key) };
        if hit {
            return Some(i);
        }
        i += 1;
    }
    None
}

/// The token table of the management API: rows `(token, role)`, the admin
/// token, and whether authentication is on.
#[derive(Debug)]
pub struct AuthManager {
    rows: Vec<(String, String)>,
    admin_token: String,
    enabled: bool,
}

impl AuthManager {
    /// The rows of the table.
    pub closed spec fn table(&self) -> Seq<(String, String)> {
        self.rows@
    }

    /// The admin token.
    pub closed spec fn admin(&self) -> Seq<char> {
        self.admin_token@
    }

    /// Whether authentication is on.
    pub closed spec fn on(&self) -> bool {
        self.enabled
    }

    /// Opens the table on the stored `rows`: the admin token is the token of
    /// the first admin row; when there is none a fresh random token is made
    /// and appended as an admin row (so opening again reuses it).
    pub fn from_rows(rows: Vec<(String, String)>, enabled: bool) -> (r: Self)
        ensures
            r.on() == enabled,
            has_admin(rows@) ==> r.table() == rows@ && exists|i: int|
                admin_at(rows@, i) && r.admin() == rows@[i].0@,
            !has_admin(rows@) ==> {
                &&& uuid_shaped(r.admin())
                &&& r.table().len() == rows@.len() + 1
                &&& r.table().drop_last() == rows@
                &&& r.table().last().0@ == r.admin()
                &&& r.table().last().1@ == ADMIN_ROLE@
            },
    {
        let mut rows = rows;
        match first_row(&rows, ADMIN_ROLE, true) {
            Some(i) => {
                let t = rows[i].0.clone();
                AuthManager { rows, admin_token: t, enabled }
            },
            None => {
                let ghost before = rows@;
                let t = new_uuid();
                rows.push((t.clone(), ADMIN_ROLE.to_string()));
                proof {
                    assert(rows@.drop_last() =~= before);
                }
                AuthManager { rows, admin_token: t, enabled }
            },
        }
    }

    /// The rows of the table, to be stored.
    pub fn rows(&self) -> (r: Vec<(String, String)>)
        ensures
            r@ == self.table(),
    {
        let mut out: Vec<(String, String)> = Vec::new();
        let mut i: usize = 0;
        while i < self.rows.len()
            invariant
                i <= self.rows@.len(),
                out@ == self.rows@.take(i as int),
            decreases self.rows.len() - i,
        {
            let row = (self.rows[i].0.clone(), self.rows[i].1.clone());
            out.push(row);
            proof {
                assert(out@ =~= self.rows@.take(i + 1));
            }
            i += 1;
        }
        proof {
            assert(out@ =~= self.rows@);
        }
        out
    }

    /// The admin token (answered by the local bootstrap endpoint).
    pub fn admin_token(&self) -> (r: &str)
        ensures
            r@ == self.admin(),
    {
        self.admin_token.as_str()
    }

    /// Whether authentication is on.
    pub fn enabled(&self) -> (r: bool)
        ensures
            r == self.on(),
    {
        self.enabled
    }

    /// The role of `token`: none for the empty token or an unknown one.
    pub fn verify(&self, token: &str) -> (r: Option<Role>)
        ensures
            r == verified_role(self.table(), token@),
    {
        if token.is_empty() {
            return None;
        }
        match first_row(&self.rows, token, false) {
            Some(i) => {
                proof {
                    let c = choose|c: int| token_at(self.rows@, token@, c);
                    if c < i as int {
                        assert(self.rows@[c].0@ != token@);
                    }
                    if (i as int) < c {
                        assert(self.rows@[i as int].0@ != token@);
                    }
                }
                Some(Role::from_str(self.rows[i].1.as_str()))
            },
            None => {
                proof {
                    assert forall|i: int| !token_at(self.rows@, token@, i) by {
                        if 0 <= i < self.rows@.len() {
                            assert(self.rows@[i].0@ != token@);
                        }
                    }
                }
                None
            },
        }
    }
}

/// Opening the table again on the rows it holds keeps the admin token: the
/// token is made once and then reused.
pub proof fn law_admin_token_is_reused(before: Seq<(String, String)>, m: AuthManager, again: AuthManager)
    requires
        has_admin(before) ==> m.table() == before && exists|i: int| admin_at(before, i) && m.admin() == before[i].0@,
        !has_admin(before) ==> {
            &&& m.table().len() == before.len() + 1
            &&& m.table().drop_last() == before
            &&& m.table().last().0@ == m.admin()
            &&& m.table().last().1@ == ADMIN_ROLE@
        },
        has_admin(m.table()) ==> again.table() == m.table() && exists|i: int|
            admin_at(m.table(), i) && again.admin() == m.table()[i].0@,
    ensures
        has_admin(m.table()),
        again.admin() == m.admin(),
{
    if has_admin(before) {
        let i = choose|i: int| admin_at(before, i) && m.admin() == before[i].0@;
        assert(m.table()[i].1@ == ADMIN_ROLE@);
        let k = choose|k: int| admin_at(m.table(), k) && again.admin() == m.table()[k].0@;
        if k < i {
            assert(m.table()[k].1@ != ADMIN_ROLE@);
        }
        if i < k {
            assert(m.table()[i].1@ != ADMIN_ROLE@);
        }
    } else {
        let n = before.len() as int;
        assert(m.table()[n].1@ == ADMIN_ROLE@);
        assert forall|j: int| 0 <= j < n implies m.table()[j].1@ != ADMIN_ROLE@ by {
            assert(m.table()[j] == m.table().drop_last()[j]);
        }
        let k = choose|k: int| admin_at(m.table(), k) && again.admin() == m.table()[k].0@;
        if k < n {
            assert(m.table()[k].1@ != ADMIN_ROLE@);
        }
    }
}

/// With one row per token, the admin token verifies as the admin role.
pub proof fn law_admin_token_verifies(m: AuthManager, i: int)
    requires
        keyed_by_token(m.table()),
        admin_at(m.table(), i),
        m.table()[i].0@.len() > 0,
    ensures
        verified_role(m.table(), m.table()[i].0@) == Some(Role::Admin),
{
    let t = m.table()[i].0@;
    assert(token_at(m.table(), t, i));
    let c = choose|c: int| token_at(m.table(), t, c);
    if c != i {
        assert(m.table()[c].0@ != m.table()[i].0@);
    }
    reveal_strlit("admin");
    reveal_strlit("viewer");
    assert(ADMIN_ROLE@ =~= "admin"@);
    assert("admin"@.len() != "viewer"@.len());
    assert(m.table()[i].1@ != "viewer"@);
}

} // verus!
