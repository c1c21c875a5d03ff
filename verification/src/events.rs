//! Events of managed services: adding, replacing, removing and toggling them
//! in the configuration store, and the polling decision that says which
//! events are pushed on a timer tick.

use vstd::prelude::*;

use crate::clock::{new_uuid, now_rfc3339, uuid_shaped};
use crate::config::ConfigManager;
use crate::keyed::{distinct, entry_map, get_value, upsert};
use crate::text::str_eq;
use crate::types::{EventConfig, EventStatus, PersistedView};

verus! {

// ======================== event list helpers ========================

/// `i` is the first position of an event with id `id`.
pub open spec fn first_event_at(s: Seq<EventConfig>, id: Seq<char>, i: int) -> bool {
    &&& 0 <= i < s.len()
    &&& s[i].id@ == id
    &&& forall|j: int| 0 <= j < i ==> s[j].id@ != id
}

/// The events of `s` whose id is not `id`, in order.
pub open spec fn without_id(s: Seq<EventConfig>, id: Seq<char>) -> Seq<EventConfig>
    decreases s.len(),
{
    if s.len() == 0 {
        s
    } else {
        let r = without_id(s.drop_last(), id);
        if s.last().id@ == id {
            r
        } else {
            r.push(s.last())
        }
    }
}

/// Some event of `s` has id `id`.
pub open spec fn has_event(s: Seq<EventConfig>, id: Seq<char>) -> bool {
    exists|i: int| 0 <= i < s.len() && s[i].id@ == id
}

/// `r` is `evt` with an empty id replaced by a fresh identifier and empty
/// timestamps replaced by the current time.
pub open spec fn filled(evt: EventConfig, r: EventConfig) -> bool {
    &&& r == (EventConfig {
        id: r.id,
        created_at: r.created_at,
        updated_at: r.updated_at,
        ..evt
    })
    &&& (if evt.id@.len() == 0 { uuid_shaped(r.id@) } else { r.id == evt.id })
    &&& (if evt.created_at@.len() == 0 { r.created_at@.len() > 0 } else { r.created_at == evt.created_at })
    &&& (if evt.updated_at@.len() == 0 { r.updated_at@.len() > 0 } else { r.updated_at == evt.updated_at })
}

/// Position of the first event with id `id`.
fn position_of(v: &Vec<EventConfig>, id: &str) -> (r: Option<usize>)
    ensures
        match r {
            Some(i) => first_event_at(v@, id@, i as int),
            None => !has_event(v@, id@),
        },
{
    let mut i: usize = 0;
    while i < v.len()
        invariant
            i <= v@.len(),
            forall|j: int| 0 <= j < i ==> v@[j].id@ != id@,
        decreases v.len() - i,
    {
        if str_eq(v[i].id.as_str(), id) {
            return Some(i);
        }
        i += 1;
    }
    None
}

// ======================== polling ========================

/// What one timer tick pushes: `event_name` with `message` (a JSON string,
/// or JSON `null` when absent) to the clients of `server_id`.
#[derive(Debug)]
pub struct PollAction {
    pub server_id: String,
    pub event_name: String,
    pub message: Option<String>,
}

/// The text of an optional string.
pub open spec fn opt_text(o: Option<String>) -> Option<Seq<char>> {
    match o {
        Some(s) => Some(s@),
        None => None,
    }
}

/// The value of a [`PollAction`]: service id, event name, message.
pub open spec fn action_view(a: PollAction) -> (Seq<char>, Seq<char>, Option<Seq<char>>) {
    (a.server_id@, a.event_name@, opt_text(a.message))
}

/// The name an event is pushed under: its handler, else its name.
pub open spec fn event_name_of(e: EventConfig) -> Seq<char> {
    match e.handler {
        Some(h) => h@,
        None => e.name@,
    }
}

/// An event takes part in polling: enabled, with polling on and a non-zero interval.
pub open spec fn poll_ready(e: EventConfig) -> bool {
    &&& e.status == EventStatus::Enabled
    &&& e.polling_enabled
    &&& e.polling_interval.unwrap_or(0) > 0
}

/// Milliseconds from `prev` to `now`, zero when `now` is earlier.
pub open spec fn elapsed(prev: u64, now: u64) -> int {
    if now >= prev {
        now - prev
    } else {
        0
    }
}

/// The event is due at `now`: ready, and either never pushed yet or pushed
/// at least its interval before `now`.
pub open spec fn poll_due(e: EventConfig, last: Map<Seq<char>, u64>, now: u64) -> bool {
    &&& poll_ready(e)
    &&& (!last.contains_key(e.id@) || elapsed(last[e.id@], now) >= e.polling_interval.unwrap_or(0))
}

/// What pushing `e` hands out: service id, event name, message.
pub open spec fn push_of(e: EventConfig) -> (Seq<char>, Seq<char>, Option<Seq<char>>) {
    (e.server_id@, event_name_of(e), opt_text(e.default_message))
}

/// One tick over `events` in order: the times of the last pushes afterwards
/// and the pushes made.
pub open spec fn tick_spec(events: Seq<EventConfig>, last: Map<Seq<char>, u64>, now: u64) -> (
    Map<Seq<char>, u64>,
    Seq<(Seq<char>, Seq<char>, Option<Seq<char>>)>,
)
    decreases events.len(),
{
    if events.len() == 0 {
        (last, Seq::empty())
    } else {
        let (m, acts) = tick_spec(events.drop_last(), last, now);
        let e = events.last();
        if poll_due(e, m, now) {
            (m.insert(e.id@, now), acts.push(push_of(e)))
        } else {
            (m, acts)
        }
    }
}

/// The event manager: the event operations, and the time each event was last
/// pushed by polling.
pub struct EventManager {
    last_sent: Vec<(String, u64)>,
}

impl EventManager {
    /// Well-formed: one entry per event id.
    pub closed spec fn wf(&self) -> bool {
        distinct(self.last_sent@)
    }

    /// When each event was last pushed, by event id.
    pub closed spec fn last_pushes(&self) -> Map<Seq<char>, u64> {
        entry_map(self.last_sent@)
    }

    /// A manager that has pushed nothing yet.
    pub fn new() -> (r: Self)
        ensures
            r.wf(),
            r.last_pushes() == Map::<Seq<char>, u64>::empty(),
    {
        let r = EventManager { last_sent: Vec::new() };
        assert(r.last_pushes() =~= Map::<Seq<char>, u64>::empty());
        r
    }

    /// Adds an event, filling in a missing id and missing timestamps, and
    /// returns it as stored.
    pub fn add_event(&self, config: &mut ConfigManager, evt: EventConfig) -> (r: EventConfig)
        ensures
            filled(evt, r),
            final(config).dir() == old(config).dir(),
            final(config)@ == (PersistedView {
                events: old(config)@.events.push(r),
                exported_at: final(config)@.exported_at,
                ..old(config)@
            }),
            final(config)@.exported_at@.len() > 0,
    {
        let mut evt = evt;
        if evt.id.as_str().is_empty() {
            evt.id = new_uuid();
        }
        if evt.created_at.as_str().is_empty() {
            evt.created_at = now_rfc3339();
        }
        if evt.updated_at.as_str().is_empty() {
            evt.updated_at = now_rfc3339();
        }
        let mut events = config.get_events();
        events.push(evt.clone());
        config.save_events(events);
        evt
    }

    /// Replaces the first event with id `id` by `evt`, which keeps that id and
    /// is restamped; `None` (and nothing changed) when there is no such event.
    pub fn update_event(&self, config: &mut ConfigManager, id: &str, evt: EventConfig) -> (r: Option<EventConfig>)
        ensures
            final(config).dir() == old(config).dir(),
            match r {
                Some(e) => exists|i: int| {
                    &&& first_event_at(old(config)@.events, id@, i)
                    &&& e.id@ == id@
                    &&& e.updated_at@.len() > 0
                    &&& e == (EventConfig { id: e.id, updated_at: e.updated_at, ..evt })
                    &&& final(config)@ == (PersistedView {
                        events: old(config)@.events.update(i, e),
                        exported_at: final(config)@.exported_at,
                        ..old(config)@
                    })
                    &&& final(config)@.exported_at@.len() > 0
                },
                None => !has_event(old(config)@.events, id@) && final(config)@ == old(config)@,
            },
    {
        let mut events = config.get_events();
        match position_of(&events, id) {
            None => None,
            Some(idx) => {
                let mut evt = evt;
                evt.id = id.to_string();
                evt.updated_at = now_rfc3339();
                events.set(idx, evt.clone());
                config.save_events(events);
                Some(evt)
            },
        }
    }

    /// Removes every event with id `id`; whether one was there. The store is
    /// written only when something was removed.
    pub fn remove_event(&self, config: &mut ConfigManager, id: &str) -> (r: bool)
        ensures
            final(config).dir() == old(config).dir(),
            r == has_event(old(config)@.events, id@),
            r ==> final(config)@ == (PersistedView {
                events: without_id(old(config)@.events, id@),
                exported_at: final(config)@.exported_at,
                ..old(config)@
            }) && final(config)@.exported_at@.len() > 0,
            !r ==> final(config)@ == old(config)@,
    {
        let events = config.get_events();
        let mut kept: Vec<EventConfig> = Vec::new();
        let mut removed = false;
        let mut i: usize = 0;
        while i < events.len()
            invariant
                i <= events@.len(),
                kept@ == without_id(events@.take(i as int), id@),
                removed == has_event(events@.take(i as int), id@),
            decreases events.len() - i,
        {
            let e = events[i].clone();
            let ghost t0 = events@.take(i as int);
            let ghost t1 = events@.take(i + 1);
            proof {
                assert(t1.drop_last() =~= t0);
                assert(t1.last() == events@[i as int]);
            }
            if str_eq(e.id.as_str(), id) {
                removed = true;
                proof {
                    assert(t1[i as int].id@ == id@);
                }
            } else {
                kept.push(e);
                proof {
                    if has_event(t1, id@) {
                        let j = choose|j: int| 0 <= j < t1.len() && #[trigger] t1[j].id@ == id@;
                        assert(t0[j].id@ == id@);
                    }
                }
            }
            proof {
                if has_event(t0, id@) {
                    let j = choose|j: int| 0 <= j < t0.len() && #[trigger] t0[j].id@ == id@;
                    assert(t1[j].id@ == id@);
                }
            }
            i += 1;
        }
        proof {
            assert(events@.take(events@.len() as int) =~= events@);
        }
        if removed {
            config.save_events(kept);
        }
        removed
    }

    /// Sets the status of the first event with id `id` and restamps it;
    /// `None` (and nothing changed) when there is no such event.
    pub fn toggle_event(&self, config: &mut ConfigManager, id: &str, status: EventStatus) -> (r: Option<EventConfig>)
        ensures
            final(config).dir() == old(config).dir(),
            match r {
                Some(e) => exists|i: int| {
                    &&& first_event_at(old(config)@.events, id@, i)
                    &&& e.updated_at@.len() > 0
                    &&& e == (EventConfig {
                        status: status,
                        updated_at: e.updated_at,
                        ..old(config)@.events[i]
                    })
                    &&& final(config)@ == (PersistedView {
                        events: old(config)@.events.update(i, e),
                        exported_at: final(config)@.exported_at,
                        ..old(config)@
                    })
                    &&& final(config)@.exported_at@.len() > 0
                },
                None => !has_event(old(config)@.events, id@) && final(config)@ == old(config)@,
            },
    {
        let mut events = config.get_events();
        match position_of(&events, id) {
            None => None,
            Some(idx) => {
                let mut evt = events[idx].clone();
                evt.status = status;
                evt.updated_at = now_rfc3339();
                events.set(idx, evt.clone());
                config.save_events(events);
                Some(evt)
            },
        }
    }

    /// Imported events are already in the configuration store; nothing is left to do.
    pub fn load_events(&self, _events: Vec<EventConfig>) {
    }

    /// One polling tick at `now` (milliseconds of a monotonic clock) over the
    /// events of `config`: the pushes due, in event order; each pushed event
    /// is remembered as pushed at `now`.
    pub fn tick(&mut self, config: &ConfigManager, now: u64) -> (r: Vec<PollAction>)
        requires
            old(self).wf(),
        ensures
            final(self).wf(),
            (final(self).last_pushes(), r@.map_values(|a: PollAction| action_view(a))) == tick_spec(
                config@.events,
                old(self).last_pushes(),
                now,
            ),
    {
        let events = config.get_events();
        let mut out: Vec<PollAction> = Vec::new();
        let mut i: usize = 0;
        let ghost start = entry_map(self.last_sent@);
        while i < events.len()
            invariant
                i <= events@.len(),
                distinct(self.last_sent@),
                (entry_map(self.last_sent@), out@.map_values(|a: PollAction| action_view(a)))
                    == tick_spec(events@.take(i as int), start, now),
            decreases events.len() - i,
        {
            let e = &events[i];
            proof {
                assert(events@.take(i + 1).drop_last() =~= events@.take(i as int));
                assert(events@.take(i + 1).last() == events@[i as int]);
            }
            let ready = e.status == EventStatus::Enabled && e.polling_enabled && match e.polling_interval {
                Some(n) => n > 0,
                None => false,
            };
            if ready {
                let interval = match e.polling_interval {
                    Some(n) => n,
                    None => 0,
                };
                let due = match get_value(&self.last_sent, e.id.as_str()) {
                    Some(t) => {
                        let prev = *t;
                        let gap = if now >= prev { now - prev } else { 0 };
                        gap >= interval
                    },
                    None => true,
                };
                if due {
                    upsert(&mut self.last_sent, e.id.clone(), now);
                    let name = match &e.handler {
                        Some(h) => h.clone(),
                        None => e.name.clone(),
                    };
                    let ghost before = out@;
                    out.push(PollAction {
                        server_id: e.server_id.clone(),
                        event_name: name,
                        message: e.default_message.clone(),
                    });
                    proof {
                        assert(out@.map_values(|a: PollAction| action_view(a)) =~= before.map_values(
                            |a: PollAction| action_view(a),
                        ).push(action_view(out@.last())));
                    }
                }
            }
            i += 1;
        }
        proof {
            assert(events@.take(events@.len() as int) =~= events@);
        }
        out
    }
}

// ======================== laws ========================

/// No two events share an id.
pub open spec fn ids_distinct(events: Seq<EventConfig>) -> bool {
    forall|i: int, j: int| 0 <= i < j < events.len() ==> events[i].id@ != events[j].id@
}

/// The first tick (nothing pushed before) pushes every event that takes part
/// in polling, in event order, and remembers each of them as pushed at `now`.
pub proof fn law_first_tick_pushes_every_ready_event(events: Seq<EventConfig>, now: u64)
    requires
        ids_distinct(events),
    ensures
        tick_spec(events, Map::empty(), now).1 == events.filter(|e: EventConfig| poll_ready(e)).map_values(
            |e: EventConfig| push_of(e),
        ),
        forall|i: int|
            0 <= i < events.len() && poll_ready(#[trigger] events[i]) ==> tick_spec(
                events,
                Map::empty(),
                now,
            ).0.contains_key(events[i].id@) && tick_spec(events, Map::empty(), now).0[events[i].id@] == now,
        forall|k: Seq<char>|
            #[trigger] tick_spec(events, Map::empty(), now).0.contains_key(k) ==> exists|i: int|
                0 <= i < events.len() && events[i].id@ == k,
    decreases events.len(),
{
    reveal(Seq::filter);
    if events.len() > 0 {
        let rest = events.drop_last();
        let e = events.last();
        assert(ids_distinct(rest));
        law_first_tick_pushes_every_ready_event(rest, now);
        let m = tick_spec(rest, Map::empty(), now).0;
        assert(!m.contains_key(e.id@)) by {
            if m.contains_key(e.id@) {
                let i = choose|i: int| 0 <= i < rest.len() && rest[i].id@ == e.id@;
                assert(events[i].id@ == events[events.len() - 1].id@);
            }
        }
        let p = |x: EventConfig| poll_ready(x);
        let f = |x: EventConfig| push_of(x);
        assert(events.filter(p) == if p(e) {
            rest.filter(p).push(e)
        } else {
            rest.filter(p)
        });
        if p(e) {
            assert(rest.filter(p).push(e).map_values(f) =~= rest.filter(p).map_values(f).push(f(e)));
        }
        assert forall|i: int|
            0 <= i < events.len() && poll_ready(#[trigger] events[i]) implies tick_spec(
                events,
                Map::empty(),
                now,
            ).0.contains_key(events[i].id@) && tick_spec(events, Map::empty(), now).0[events[i].id@] == now by {
            if i < events.len() - 1 {
                assert(events[i] == rest[i]);
                assert(events[i].id@ != e.id@);
            }
        }
        assert forall|k: Seq<char>| #[trigger] tick_spec(events, Map::empty(), now).0.contains_key(k) implies exists|i: int|
            0 <= i < events.len() && events[i].id@ == k by {
            if m.contains_key(k) {
                let i = choose|i: int| 0 <= i < rest.len() && rest[i].id@ == k;
                assert(events[i] == rest[i]);
            } else {
                assert(events[events.len() - 1].id@ == k);
            }
        }
    }
}

/// An event taking part in polling and pushed at `t` is pushed again by a
/// later tick at `t2` exactly when its interval has passed between the two.
pub proof fn law_pushed_again_after_interval(e: EventConfig, last: Map<Seq<char>, u64>, t: u64, t2: u64)
    requires
        poll_ready(e),
        !last.contains_key(e.id@),
    ensures
        tick_spec(seq![e], last, t).1 == seq![push_of(e)],
        tick_spec(seq![e], tick_spec(seq![e], last, t).0, t2).1.len() == 1 <==> elapsed(t, t2)
            >= e.polling_interval.unwrap_or(0),
{
    let one = seq![e];
    assert(one.drop_last() =~= Seq::<EventConfig>::empty());
    assert(one.last() == e);
    let empty = Seq::<EventConfig>::empty();
    assert(tick_spec(empty, last, t).1.len() == 0);
    assert(tick_spec(empty, last, t).0 == last);
    assert(Seq::<(Seq<char>, Seq<char>, Option<Seq<char>>)>::empty().push(push_of(e)) =~= seq![push_of(e)]);
    let m = last.insert(e.id@, t);
    assert(tick_spec(one, last, t) == (m, seq![push_of(e)]));
    assert(tick_spec(empty, m, t2).1.len() == 0);
    assert(tick_spec(empty, m, t2).0 == m);
    assert(m.contains_key(e.id@) && m[e.id@] == t);
}

/// Removing drops exactly the events with that id and keeps the others in order.
pub proof fn law_without_id(s: Seq<EventConfig>, id: Seq<char>)
    ensures
        !has_event(without_id(s, id), id),
        without_id(s, id).len() <= s.len(),
        !has_event(s, id) ==> without_id(s, id) == s,
    decreases s.len(),
{
    if s.len() > 0 {
        law_without_id(s.drop_last(), id);
        let r = without_id(s.drop_last(), id);
        if has_event(without_id(s, id), id) {
            let j = choose|j: int| 0 <= j < without_id(s, id).len() && without_id(s, id)[j].id@ == id;
            if j < r.len() {
                assert(r[j].id@ == id);
            }
        }
        if !has_event(s, id) {
            if has_event(s.drop_last(), id) {
                let j = choose|j: int| 0 <= j < s.drop_last().len() && s.drop_last()[j].id@ == id;
                assert(s[j].id@ == id);
            }
            assert(s.last().id@ != id) by {
                if s.last().id@ == id {
                    assert(s[s.len() - 1].id@ == id);
                }
            }
            assert(s.drop_last().push(s.last()) =~= s);
        }
    }
}

} // verus!
