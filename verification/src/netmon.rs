//! Network and power change bookkeeping for the kill switch. Every event is recorded for
//! `/status` and the log; an armed kill switch stays armed (the barrier stays). Interface and
//! route notifications are debounced into one event.

use crate::structure::NetworkEventsStatus;
use crate::text::{dec_text, push_decimal, strings_view};
use vstd::prelude::*;

verus! {

pub const MAX_RECORDED_EVENTS: usize = 32;
/// Quiet time after the last raw notification before one network-change event is noted.
pub const DEBOUNCE_MS: u64 = 750;
pub const POWER_EVENT: &'static str = "power-event";
pub const NETWORK_CHANGE_EVENT: &'static str = "network-change (ip-interface/route)";

/// The recorded events, the counter and the latest-event summary.
pub struct EventLog {
    events: Vec<String>,
    last_kind: Option<String>,
    last_at: i64,
    change_count: u64,
}

pub ghost struct EventLogView {
    pub events: Seq<Seq<char>>,
    pub last_kind: Option<Seq<char>>,
    pub last_at: i64,
    pub change_count: u64,
}

impl View for EventLog {
    type V = EventLogView;

    closed spec fn view(&self) -> EventLogView {
        EventLogView {
            events: strings_view(self.events@),
            last_kind: match self.last_kind {
                Some(k) => Some(k@),
                None => None,
            },
            last_at: self.last_at,
            change_count: self.change_count,
        }
    }
}

/// The text one event is logged as.
pub open spec fn event_text(kind: Seq<char>, now: u64) -> Seq<char> {
    kind + " @"@ + dec_text(now as nat)
}

/// The log after one more event: appended, then only the newest `MAX_RECORDED_EVENTS` kept.
pub open spec fn bounded_push(events: Seq<Seq<char>>, e: Seq<char>) -> Seq<Seq<char>> {
    let s = events.push(e);
    if s.len() > MAX_RECORDED_EVENTS {
        s.skip(s.len() - MAX_RECORDED_EVENTS)
    } else {
        s
    }
}

impl EventLog {
    /// The log holds at most `MAX_RECORDED_EVENTS` events.
    pub closed spec fn wf(&self) -> bool {
        self.events@.len() <= MAX_RECORDED_EVENTS
    }

    pub fn new() -> (r: EventLog)
        ensures
            r.wf(),
            r@.events.len() == 0,
            r@.last_kind is None,
            r@.last_at == 0,
            r@.change_count == 0,
    {
        let r = EventLog { events: Vec::new(), last_kind: None, last_at: 0, change_count: 0 };
        proof {
            assert(strings_view(r.events@) =~= Seq::<Seq<char>>::empty());
        }
        r
    }

    /// Record an event seen at `now` (seconds since the epoch). Never disarms anything.
    pub fn note_event(&mut self, kind: &str, now: u64)
        requires
            old(self).wf(),
        ensures
            final(self).wf(),
            final(self)@.events == bounded_push(old(self)@.events, event_text(kind@, now)),
            final(self)@.last_kind == Some(kind@),
            final(self)@.last_at == now as i64,
            final(self)@.change_count == vstd::wrapping::u64_specs::wrapping_add(
                old(self)@.change_count,
                1,
            ),
    {
        self.change_count = self.change_count.wrapping_add(1);
        self.last_kind = Some(kind.to_string());
        self.last_at = now as i64;
        let mut e = String::new();
        e.append(kind);
        e.append(" @");
        push_decimal(&mut e, now);
        let ghost before = strings_view(self.events@);
        self.events.push(e);
        proof {
            assert(strings_view(self.events@) =~= before.push(e@));
        }
        if self.events.len() > MAX_RECORDED_EVENTS {
            let ghost pushed = strings_view(self.events@);
            self.events.remove(0);
            proof {
                assert(strings_view(self.events@) =~= pushed.skip(1));
            }
        }
    }

    /// A sleep/wake power event: it invalidates `Connected`; the barrier is untouched.
    pub fn note_power_event(&mut self, now: u64)
        requires
            old(self).wf(),
        ensures
            final(self).wf(),
            final(self)@.events == bounded_push(old(self)@.events, event_text(POWER_EVENT@, now)),
            final(self)@.last_kind == Some(POWER_EVENT@),
            final(self)@.last_at == now as i64,
            final(self)@.change_count == vstd::wrapping::u64_specs::wrapping_add(
                old(self)@.change_count,
                1,
            ),
    {
        self.note_event(POWER_EVENT, now);
    }

    /// The bounded recent-event log, oldest first.
    pub fn recent_events(&self) -> (r: Vec<String>)
        ensures
            strings_view(r@) == self@.events,
    {
        let mut r: Vec<String> = Vec::new();
        let mut i: usize = 0;
        while i < self.events.len()
            invariant
                i <= self.events@.len(),
                strings_view(r@) == strings_view(self.events@).take(i as int),
            decreases self.events@.len() - i,
        {
            let ghost prev = r@;
            r.push(self.events[i].clone());
            proof {
                assert(strings_view(r@) =~= strings_view(prev).push(self.events@[i as int]@));
                assert(strings_view(self.events@).take(i + 1) =~= strings_view(self.events@).take(
                    i as int,
                ).push(self.events@[i as int]@));
            }
            i = i + 1;
        }
        proof {
            assert(strings_view(self.events@).take(self.events@.len() as int) =~= strings_view(
                self.events@,
            ));
        }
        r
    }

    /// The pollable counter and latest-event summary; a zero time means no event yet.
    pub fn status(&self) -> (r: NetworkEventsStatus)
        ensures
            r.counter == self@.change_count,
            match r.last_kind {
                Some(k) => self@.last_kind == Some(k@),
                None => self@.last_kind is None,
            },
            r.last_at == if self@.last_at == 0 {
                None
            } else {
                Some(self@.last_at)
            },
    {
        NetworkEventsStatus {
            counter: self.change_count,
            last_kind: match &self.last_kind {
                Some(k) => Some(k.clone()),
                None => None,
            },
            last_at: if self.last_at == 0 {
                None
            } else {
                Some(self.last_at)
            },
        }
    }

    /// Events seen since start.
    pub fn change_count(&self) -> (r: u64)
        ensures
            r == self@.change_count,
    {
        self.change_count
    }
}

/// Registration state and the debounce of raw interface/route notifications.
#[derive(Clone, Copy, Debug, PartialEq, Eq, Structural)]
pub struct NetworkMonitor {
    pub started: bool,
    pub pending_raw: bool,
    pub last_raw_ms: u64,
}

impl NetworkMonitor {
    pub fn new() -> (r: NetworkMonitor)
        ensures
            !r.started && !r.pending_raw && r.last_raw_ms == 0,
    {
        NetworkMonitor { started: false, pending_raw: false, last_raw_ms: 0 }
    }

    /// Idempotent start: only the first call registers the notifications.
    pub fn start(&mut self) -> (register: bool)
        ensures
            register == !old(self).started,
            final(self).started,
            final(self).pending_raw == old(self).pending_raw,
            final(self).last_raw_ms == old(self).last_raw_ms,
    {
        let first = !self.started;
        self.started = true;
        first
    }

    /// A raw notification at `now_ms` (monotonic milliseconds).
    pub fn raw_notify(&mut self, now_ms: u64)
        ensures
            final(self).pending_raw,
            final(self).last_raw_ms == now_ms,
            final(self).started == old(self).started,
    {
        self.pending_raw = true;
        self.last_raw_ms = now_ms;
    }

    /// One debounce tick: a pending burst becomes a single event once it has been quiet for
    /// `DEBOUNCE_MS`.
    pub fn debounce_tick(&mut self, now_ms: u64) -> (fire: bool)
        ensures
            fire == (old(self).pending_raw && (if now_ms >= old(self).last_raw_ms {
                now_ms - old(self).last_raw_ms
            } else {
                0
            }) >= DEBOUNCE_MS),
            final(self).pending_raw == (old(self).pending_raw && !fire),
            final(self).last_raw_ms == old(self).last_raw_ms,
            final(self).started == old(self).started,
    {
        if !self.pending_raw {
            return false;
        }
        let quiet = now_ms.saturating_sub(self.last_raw_ms);
        if quiet >= DEBOUNCE_MS {
            self.pending_raw = false;
            true
        } else {
            false
        }
    }
}

/// The log stays bounded and keeps the newest events: after any event the log holds at most
/// `MAX_RECORDED_EVENTS` entries and ends with that event.
pub proof fn log_is_bounded_and_newest_last(events: Seq<Seq<char>>, e: Seq<char>)
    requires
        events.len() <= MAX_RECORDED_EVENTS,
    ensures
        bounded_push(events, e).len() <= MAX_RECORDED_EVENTS,
        bounded_push(events, e).last() == e,
        events.len() < MAX_RECORDED_EVENTS ==> bounded_push(events, e) == events.push(e),
{
}

} // verus!
