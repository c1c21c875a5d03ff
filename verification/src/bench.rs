//! Load test bookkeeping: the default configuration and the integer tallies
//! of a run. Running the clients and measuring round trips (in floating
//! point) is the caller's business.

use vstd::prelude::*;

verus! {

/// Load test configuration.
#[derive(Debug, Clone, Copy, PartialEq, Eq, Structural)]
pub struct BenchConfig {
    /// Concurrent clients.
    pub clients: usize,
    /// Messages each client sends.
    pub messages_per_client: usize,
    /// Approximate payload size in bytes (capped at 4 KiB).
    pub payload_bytes: usize,
    /// Wait for each echo and time it (else only measure sending).
    pub echo: bool,
}

impl Default for BenchConfig {
    fn default() -> (r: Self)
        ensures
            r == (BenchConfig { clients: 50, messages_per_client: 200, payload_bytes: 64, echo: true }),
    {
        BenchConfig { clients: 50, messages_per_client: 200, payload_bytes: 64, echo: true }
    }
}

/// Size of the padding text of a message: the payload size, at most 4096.
pub fn pad_len(payload_bytes: usize) -> (r: usize)
    ensures
        r == (if payload_bytes <= 4096 { payload_bytes } else { 4096 }),
{
    if payload_bytes <= 4096 {
        payload_bytes
    } else {
        4096
    }
}

/// Number of messages a run aims to send.
pub fn messages_target(cfg: &BenchConfig) -> (r: usize)
    requires
        cfg.clients * cfg.messages_per_client <= usize::MAX,
    ensures
        r == cfg.clients * cfg.messages_per_client,
{
    cfg.clients * cfg.messages_per_client
}

/// What one client reports: whether it connected, how many messages it sent
/// and how many errors it met.
#[derive(Debug, Clone, Copy, PartialEq, Eq, Structural)]
pub struct ClientTally {
    pub connected: bool,
    pub sent: usize,
    pub errors: usize,
}

/// The sums over all clients.
#[derive(Debug, Clone, Copy, PartialEq, Eq, Structural)]
pub struct RunTally {
    pub connects: usize,
    pub connect_errors: usize,
    pub messages_sent: usize,
    /// Errors of the clients plus the failed connections.
    pub errors: usize,
}

/// Number of connected clients.
pub open spec fn connected_count(s: Seq<ClientTally>) -> nat
    decreases s.len(),
{
    if s.len() == 0 {
        0
    } else {
        connected_count(s.drop_last()) + if s.last().connected { 1nat } else { 0nat }
    }
}

/// Messages sent by all clients.
pub open spec fn sent_sum(s: Seq<ClientTally>) -> nat
    decreases s.len(),
{
    if s.len() == 0 {
        0
    } else {
        sent_sum(s.drop_last()) + s.last().sent as nat
    }
}

/// Errors of all clients.
pub open spec fn error_sum(s: Seq<ClientTally>) -> nat
    decreases s.len(),
{
    if s.len() == 0 {
        0
    } else {
        error_sum(s.drop_last()) + s.last().errors as nat
    }
}

proof fn lemma_connected_bound(s: Seq<ClientTally>)
    ensures
        connected_count(s) <= s.len(),
    decreases s.len(),
{
    if s.len() > 0 {
        lemma_connected_bound(s.drop_last());
    }
}

/// Sums up the client reports of a run.
pub fn tally(results: &Vec<ClientTally>) -> (r: RunTally)
    requires
        sent_sum(results@) <= usize::MAX,
        error_sum(results@) + results@.len() <= usize::MAX,
    ensures
        r.connects == connected_count(results@),
        r.connect_errors == results@.len() - connected_count(results@),
        r.messages_sent == sent_sum(results@),
        r.errors == error_sum(results@) + (results@.len() - connected_count(results@)),
{
    let mut connects: usize = 0;
    let mut connect_errors: usize = 0;
    let mut sent: usize = 0;
    let mut errors: usize = 0;
    let mut i: usize = 0;
    proof {
        lemma_connected_bound(results@);
    }
    while i < results.len()
        invariant
            i <= results@.len(),
            sent_sum(results@) <= usize::MAX,
            error_sum(results@) + results@.len() <= usize::MAX,
            connects == connected_count(results@.take(i as int)),
            connect_errors == i - connected_count(results@.take(i as int)),
            sent == sent_sum(results@.take(i as int)),
            errors == error_sum(results@.take(i as int)),
        decreases results.len() - i,
    {
        let ghost pre = results@.take(i as int);
        let ghost next = results@.take(i + 1);
        proof {
            assert(next.drop_last() =~= pre);
            assert(next.last() == results@[i as int]);
            lemma_connected_bound(pre);
            lemma_sums_prefix(results@, i + 1);
        }
        let r = results[i];
        if r.connected {
            connects += 1;
        } else {
            connect_errors += 1;
        }
        sent += r.sent;
        errors += r.errors;
        i += 1;
    }
    proof {
        assert(results@.take(results@.len() as int) =~= results@);
    }
    RunTally { connects, connect_errors, messages_sent: sent, errors: errors + connect_errors }
}

/// Sums over a prefix are bounded by the sums over the whole list.
proof fn lemma_sums_prefix(s: Seq<ClientTally>, k: int)
    requires
        0 <= k <= s.len(),
    ensures
        sent_sum(s.take(k)) <= sent_sum(s),
        error_sum(s.take(k)) <= error_sum(s),
    decreases s.len() - k,
{
    if k < s.len() {
        lemma_sums_prefix(s, k + 1);
        assert(s.take(k + 1).drop_last() =~= s.take(k));
    } else {
        assert(s.take(k) =~= s);
    }
}

/// Every client either connected or failed to, never both.
pub proof fn law_connections_partition(s: Seq<ClientTally>)
    ensures
        connected_count(s) <= s.len(),
        connected_count(s) + (s.len() - connected_count(s)) == s.len(),
{
    lemma_connected_bound(s);
}

} // verus!
