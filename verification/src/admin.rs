//! The admin channel session: what a frame from the frontend and a heartbeat
//! tick do to a session. Sending and receiving frames is the caller's business.

use vstd::prelude::*;

use crate::constants::{EVT_HEARTBEAT_ACK, HEARTBEAT_TIMEOUT_MS};
use crate::text::str_eq;

verus! {

/// What a heartbeat tick asks of the caller.
#[derive(Debug, Clone, Copy, PartialEq, Eq, Structural)]
pub enum TickAction {
    /// Send a `heartbeat` frame.
    SendHeartbeat,
    /// The frontend stopped acknowledging: close the channel.
    Close,
}

/// An admin channel session: when the frontend last acknowledged a heartbeat
/// (milliseconds of a monotonic clock).
#[derive(Debug)]
pub struct AdminSession {
    pub last_ack: u64,
}

/// Milliseconds from `from` to `now` (zero when `now` is earlier).
pub open spec fn since(from: u64, now: u64) -> int {
    if now >= from {
        now - from
    } else {
        0
    }
}

impl AdminSession {
    /// A session opened at `now` (counting as acknowledged then).
    pub fn new(now: u64) -> (r: Self)
        ensures
            r.last_ack == now,
    {
        AdminSession { last_ack: now }
    }

    /// A frame with event name `event` arrived at `now`: a `heartbeat_ack`
    /// renews the session, any other frame changes nothing.
    pub fn on_frame(&mut self, event: &str, now: u64)
        ensures
            final(self).last_ack == (if event@ == EVT_HEARTBEAT_ACK@ { now } else { old(self).last_ack }),
    {
        if str_eq(event, EVT_HEARTBEAT_ACK) {
            self.last_ack = now;
        }
    }

    /// A heartbeat tick at `now`: close when the last acknowledgement is more
    /// than [`HEARTBEAT_TIMEOUT_MS`] old, else send a heartbeat.
    pub fn on_tick(&self, now: u64) -> (r: TickAction)
        ensures
            r == (if since(self.last_ack, now) > HEARTBEAT_TIMEOUT_MS { TickAction::Close } else { TickAction::SendHeartbeat }),
    {
        let gap = if now >= self.last_ack { now - self.last_ack } else { 0 };
        if gap > HEARTBEAT_TIMEOUT_MS {
            TickAction::Close
        } else {
            TickAction::SendHeartbeat
        }
    }
}

/// A session acknowledged at `t` survives every tick up to the timeout after
/// `t`, and a fresh acknowledgement always keeps it open.
pub proof fn law_ack_keeps_alive(t: u64, now: u64)
    ensures
        now <= t + HEARTBEAT_TIMEOUT_MS ==> !(since(t, now) > HEARTBEAT_TIMEOUT_MS),
        !(since(now, now) > HEARTBEAT_TIMEOUT_MS),
{
}

} // verus!
