//! Connected clients of the managed services, kept under the composite key
//! `serverId___socketId` so that equal socket ids of different services do
//! not collide.

use vstd::prelude::*;

use crate::constants::CLIENT_ID_SEP;
use crate::keyed::{distinct, entry_map, entry_values, lemma_entry_at, remove_key, upsert};
use crate::text::{concat, str_eq};
use crate::types::ClientInfo;

verus! {

/// The separator of composite client keys.
pub open spec fn sep() -> Seq<char> {
    seq!['_', '_', '_']
}

/// The composite key of socket `socket_id` of service `server_id`.
pub open spec fn composite_spec(server_id: Seq<char>, socket_id: Seq<char>) -> Seq<char> {
    server_id + sep() + socket_id
}

/// The key a client is stored under.
pub open spec fn client_key(c: ClientInfo) -> Seq<char> {
    composite_spec(c.server_id@, c.id@)
}

/// The clients of `s` that belong to service `sid`, in order.
pub open spec fn of_server(s: Seq<ClientInfo>, sid: Seq<char>) -> Seq<ClientInfo>
    decreases s.len(),
{
    if s.len() == 0 {
        s
    } else {
        let r = of_server(s.drop_last(), sid);
        if s.last().server_id@ == sid {
            r.push(s.last())
        } else {
            r
        }
    }
}

fn composite(server_id: &str, socket_id: &str) -> (r: String)
    ensures
        r@ == composite_spec(server_id@, socket_id@),
{
    proof {
        reveal_strlit("___");
    }
    let head = concat(server_id, CLIENT_ID_SEP);
    concat(head.as_str(), socket_id)
}

/// The registry of connected clients.
pub struct ClientManager {
    clients: Vec<(String, ClientInfo)>,
}

impl View for ClientManager {
    type V = Map<Seq<char>, ClientInfo>;

    /// Each composite key to its client.
    closed spec fn view(&self) -> Map<Seq<char>, ClientInfo> {
        entry_map(self.clients@)
    }
}

impl ClientManager {
    /// Well-formed: keys are distinct and each is the key of its own client.
    pub closed spec fn wf(&self) -> bool {
        &&& distinct(self.clients@)
        &&& forall|i: int| 0 <= i < self.clients@.len() ==> #[trigger] self.clients@[i].0@ == client_key(
            self.clients@[i].1,
        )
    }

    /// The clients in the order the listing gives them (each one once; see
    /// [`law_listing_is_the_registry`]).
    pub closed spec fn clients_seq(&self) -> Seq<ClientInfo> {
        entry_values(self.clients@)
    }

    /// An empty registry.
    pub fn new() -> (r: Self)
        ensures
            r.wf(),
            r@ == Map::<Seq<char>, ClientInfo>::empty(),
    {
        let r = ClientManager { clients: Vec::new() };
        assert(r@ =~= Map::<Seq<char>, ClientInfo>::empty());
        r
    }

    /// Adds a client, or replaces the one with the same service and socket id.
    pub fn add(&mut self, info: ClientInfo)
        requires
            old(self).wf(),
        ensures
            final(self).wf(),
            final(self)@ == old(self)@.insert(client_key(info), info),
    {
        let key = composite(info.server_id.as_str(), info.id.as_str());
        let ghost old_v = self.clients@;
        upsert(&mut self.clients, key, info);
        proof {
            assert forall|i: int| 0 <= i < self.clients@.len() implies #[trigger] self.clients@[i].0@
                == client_key(self.clients@[i].1) by {
                if i < old_v.len() && old_v[i].0@ != client_key(info) {
                    assert(self.clients@[i] == old_v[i]);
                } else {
                    lemma_entry_at(self.clients@, i);
                    if i < old_v.len() {
                        assert(entry_map(self.clients@)[client_key(info)] == info);
                    } else {
                        assert(self.clients@[i] == (key, info));
                    }
                }
            }
        }
    }

    /// Removes socket `socket_id` (the raw id, without the service prefix) of
    /// service `server_id`; nothing happens when it is not there.
    pub fn remove(&mut self, server_id: &str, socket_id: &str)
        requires
            old(self).wf(),
        ensures
            final(self).wf(),
            final(self)@ == old(self)@.remove(composite_spec(server_id@, socket_id@)),
    {
        let key = composite(server_id, socket_id);
        let ghost old_v = self.clients@;
        let _ = remove_key(&mut self.clients, key.as_str());
        proof {
            if exists|i: int| 0 <= i < old_v.len() && old_v[i].0@ == key@ && self.clients@ == old_v.remove(i) {
                let i = choose|i: int| 0 <= i < old_v.len() && old_v[i].0@ == key@ && self.clients@ == old_v.remove(i);
                assert forall|a: int| 0 <= a < self.clients@.len() implies #[trigger] self.clients@[a].0@
                    == client_key(self.clients@[a].1) by {
                    if a < i {
                        assert(self.clients@[a] == old_v[a]);
                    } else {
                        assert(self.clients@[a] == old_v[a + 1]);
                    }
                }
            }
        }
    }

    /// Every connected client.
    pub fn list(&self) -> (r: Vec<ClientInfo>)
        requires
            self.wf(),
        ensures
            r@ == self.clients_seq(),
    {
        self.get_clients(None)
    }

    /// The clients of service `server_id`, or every client for `None`.
    pub fn get_clients(&self, server_id: Option<&str>) -> (r: Vec<ClientInfo>)
        requires
            self.wf(),
        ensures
            r@ == match server_id {
                Some(sid) => of_server(self.clients_seq(), sid@),
                None => self.clients_seq(),
            },
    {
        let mut out: Vec<ClientInfo> = Vec::new();
        let mut i: usize = 0;
        let ghost all = self.clients_seq();
        while i < self.clients.len()
            invariant
                i <= self.clients@.len(),
                all == entry_values(self.clients@),
                all.len() == self.clients@.len(),
                out@ == match server_id {
                    Some(sid) => of_server(all.take(i as int), sid@),
                    None => all.take(i as int),
                },
            decreases self.clients.len() - i,
        {
            let c = &self.clients[i].1;
            proof {
                assert(all.take(i + 1).drop_last() =~= all.take(i as int));
                assert(all.take(i + 1).last() == all[i as int]);
                assert(all[i as int] == self.clients@[i as int].1);
                assert(all.take(i as int).push(all[i as int]) =~= all.take(i + 1));
            }
            match server_id {
                Some(sid) => {
                    if str_eq(c.server_id.as_str(), sid) {
                        out.push(c.clone());
                    }
                },
                None => {
                    out.push(c.clone());
                },
            }
            i += 1;
        }
        proof {
            assert(all.take(all.len() as int) =~= all);
        }
        out
    }

    /// Number of connected clients of service `server_id`.
    pub fn count(&self, server_id: &str) -> (r: usize)
        requires
            self.wf(),
        ensures
            r == of_server(self.clients_seq(), server_id@).len(),
    {
        let v = self.get_clients(Some(server_id));
        v.len()
    }
}

// ======================== laws ========================

/// The listing is the registry: each listed client is stored under its own
/// key, every stored key is listed, and no key is listed twice.
pub proof fn law_listing_is_the_registry(m: &ClientManager)
    requires
        m.wf(),
    ensures
        forall|i: int| 0 <= i < m.clients_seq().len() ==> {
            &&& m@.contains_key(#[trigger] client_key(m.clients_seq()[i]))
            &&& m@[client_key(m.clients_seq()[i])] == m.clients_seq()[i]
        },
        forall|k: Seq<char>| #[trigger] m@.contains_key(k) ==> exists|i: int|
            0 <= i < m.clients_seq().len() && client_key(m.clients_seq()[i]) == k,
        forall|i: int, j: int|
            0 <= i < m.clients_seq().len() && 0 <= j < m.clients_seq().len() && i != j ==> client_key(
                m.clients_seq()[i],
            ) != client_key(m.clients_seq()[j]),
{
    let v = m.clients@;
    assert forall|i: int| 0 <= i < m.clients_seq().len() implies {
        &&& m@.contains_key(#[trigger] client_key(m.clients_seq()[i]))
        &&& m@[client_key(m.clients_seq()[i])] == m.clients_seq()[i]
    } by {
        assert(v[i].0@ == client_key(v[i].1));
        lemma_entry_at(v, i);
    }
    assert forall|k: Seq<char>| #[trigger] m@.contains_key(k) implies exists|i: int|
        0 <= i < m.clients_seq().len() && client_key(m.clients_seq()[i]) == k by {
        let i = choose|i: int| 0 <= i < v.len() && v[i].0@ == k;
        assert(v[i].0@ == client_key(v[i].1));
        assert(m.clients_seq()[i] == v[i].1);
    }
    assert forall|i: int, j: int|
        0 <= i < m.clients_seq().len() && 0 <= j < m.clients_seq().len() && i != j implies client_key(
            m.clients_seq()[i],
        ) != client_key(m.clients_seq()[j]) by {
        assert(v[i].0@ == client_key(v[i].1));
        assert(v[j].0@ == client_key(v[j].1));
    }
}

/// Clients of two services with different ids of the same length never share
/// a key, whatever their socket ids.
pub proof fn law_composite_separates(s1: Seq<char>, s2: Seq<char>, id1: Seq<char>, id2: Seq<char>)
    requires
        s1 != s2,
        s1.len() == s2.len(),
    ensures
        composite_spec(s1, id1) != composite_spec(s2, id2),
{
    let j = choose|j: int| 0 <= j < s1.len() && s1[j] != s2[j];
    assert(s1 != s2 ==> exists|j: int| 0 <= j < s1.len() && s1[j] != s2[j]) by {
        if forall|j: int| 0 <= j < s1.len() ==> s1[j] == s2[j] {
            assert(s1 =~= s2);
        }
    }
    assert(composite_spec(s1, id1)[j] == s1[j]);
    assert(composite_spec(s2, id2)[j] == s2[j]);
}

/// Listing a service's clients keeps exactly its clients: every listed
/// client belongs to the service and is a stored client, every stored client
/// of the service is listed, and the listing is the stored sequence with the
/// other services' clients left out (same order, same multiplicity).
pub proof fn law_of_server_members(s: Seq<ClientInfo>, sid: Seq<char>)
    ensures
        forall|i: int| 0 <= i < of_server(s, sid).len() ==> #[trigger] of_server(s, sid)[i].server_id@ == sid,
        forall|i: int| 0 <= i < of_server(s, sid).len() ==> s.contains(#[trigger] of_server(s, sid)[i]),
        forall|j: int| 0 <= j < s.len() && #[trigger] s[j].server_id@ == sid ==> of_server(s, sid).contains(s[j]),
        of_server(s, sid) == s.filter(|c: ClientInfo| c.server_id@ == sid),
        of_server(s, sid).len() <= s.len(),
    decreases s.len(),
{
    reveal(Seq::filter);
    if s.len() > 0 {
        let init = s.drop_last();
        law_of_server_members(init, sid);
        let r0 = of_server(init, sid);
        let r = of_server(s, sid);
        assert forall|i: int| 0 <= i < r.len() implies s.contains(#[trigger] r[i]) by {
            if i < r0.len() {
                assert(r[i] == r0[i]);
                let k = choose|k: int| 0 <= k < init.len() && init[k] == r0[i];
                assert(s[k] == init[k]);
            } else {
                assert(s[s.len() - 1] == r[i]);
            }
        }
        assert forall|j: int| 0 <= j < s.len() && #[trigger] s[j].server_id@ == sid implies r.contains(s[j]) by {
            if j < s.len() - 1 {
                assert(init[j] == s[j]);
                assert(init[j].server_id@ == sid);
                let k = choose|k: int| 0 <= k < r0.len() && r0[k] == init[j];
                assert(r[k] == r0[k]);
            } else {
                assert(r[r.len() - 1] == s.last());
            }
        }
    }
}

/// The number of clients counted for a service is the number of stored
/// clients of that service.
pub proof fn law_count_is_the_number_of_its_clients(m: &ClientManager, sid: Seq<char>)
    ensures
        of_server(m.clients_seq(), sid).len() == m.clients_seq().filter(|c: ClientInfo| c.server_id@ == sid).len(),
        forall|j: int|
            0 <= j < m.clients_seq().len() && #[trigger] m.clients_seq()[j].server_id@ == sid ==> of_server(
                m.clients_seq(),
                sid,
            ).contains(m.clients_seq()[j]),
{
    law_of_server_members(m.clients_seq(), sid);
}

/// Removing a client that was just added (by its service and socket id)
/// leaves the registry as removing it before would have: nothing of the
/// added client remains.
pub proof fn law_remove_undoes_add(m: Map<Seq<char>, ClientInfo>, info: ClientInfo)
    ensures
        m.insert(client_key(info), info).remove(composite_spec(info.server_id@, info.id@)) == m.remove(
            client_key(info),
        ),
        !m.insert(client_key(info), info).remove(composite_spec(info.server_id@, info.id@)).contains_key(
            client_key(info),
        ),
{
    assert(m.insert(client_key(info), info).remove(client_key(info)) =~= m.remove(client_key(info)));
}

} // verus!
