//! The protected-DNS watchdog's decisions. The watchdog is a writer of machine state, so its
//! repair is fenced: it acts only while protection is wanted, only on a snapshot that exists
//! and has drifted, and it backs off and then suspends after repeated failures.

use crate::dns::{backoff_spec, reconcile_backoff, DNS_RECONCILE_MAX_BACKOFF_MS, DNS_RECONCILE_MAX_FAILURES};
use vstd::prelude::*;

verus! {

/// What one watchdog tick does.
#[derive(Clone, Copy, Debug, PartialEq, Eq, Structural)]
pub enum ReconcileAction {
    /// Nothing to repair: healthy, released, or no longer wanted.
    Idle,
    /// Drift seen, but repair is backing off or suspended.
    Wait,
    /// Re-apply the existing snapshot (`enable` with the reconcile trigger).
    Repair,
}

/// The watchdog's memory between ticks; times are monotonic milliseconds.
#[derive(Clone, Copy, Debug, PartialEq, Eq, Structural)]
pub struct ReconcileState {
    pub failures: u32,
    pub next_attempt_ms: u64,
}

pub open spec fn drift_to_repair(wanted: bool, snapshot_present: bool, enabled: bool) -> bool {
    wanted && snapshot_present && !enabled
}

impl ReconcileState {
    pub fn new(now_ms: u64) -> (r: ReconcileState)
        ensures
            r.failures == 0,
            r.next_attempt_ms == now_ms,
    {
        ReconcileState { failures: 0, next_attempt_ms: now_ms }
    }

    /// One tick, taken with the observed status. With nothing to repair a spent failure streak
    /// is re-armed; otherwise a repair runs only when it is neither suspended nor backing off.
    pub fn tick(&mut self, wanted: bool, snapshot_present: bool, enabled: bool, now_ms: u64) -> (r:
        ReconcileAction)
        ensures
            !drift_to_repair(wanted, snapshot_present, enabled) ==> r == ReconcileAction::Idle && (
            old(self).failures > 0 ==> *final(self) == (ReconcileState {
                failures: 0,
                next_attempt_ms: now_ms,
            })) && (old(self).failures == 0 ==> *final(self) == *old(self)),
            drift_to_repair(wanted, snapshot_present, enabled) ==> *final(self) == *old(self) && (r
                == ReconcileAction::Repair <==> (old(self).failures < DNS_RECONCILE_MAX_FAILURES
                && now_ms >= old(self).next_attempt_ms)) && (r != ReconcileAction::Repair ==> r
                == ReconcileAction::Wait),
            r == ReconcileAction::Repair ==> wanted && snapshot_present && !enabled && old(
                self,
            ).failures < DNS_RECONCILE_MAX_FAILURES,
    {
        if !(wanted && snapshot_present && !enabled) {
            if self.failures > 0 {
                self.failures = 0;
                self.next_attempt_ms = now_ms;
            }
            return ReconcileAction::Idle;
        }
        if reconcile_backoff(self.failures).is_none() {
            return ReconcileAction::Wait;
        }
        if now_ms < self.next_attempt_ms {
            return ReconcileAction::Wait;
        }
        ReconcileAction::Repair
    }

    /// The outcome of a repair: success clears the streak, failure extends it and schedules the
    /// next attempt after the backoff for the new streak (the cap once suspended).
    pub fn record_repair(&mut self, succeeded: bool, now_ms: u64)
        requires
            old(self).failures < u32::MAX,
            now_ms <= u64::MAX - DNS_RECONCILE_MAX_BACKOFF_MS,
        ensures
            succeeded ==> *final(self) == (ReconcileState { failures: 0, next_attempt_ms: now_ms }),
            !succeeded ==> final(self).failures == old(self).failures + 1
                && final(self).next_attempt_ms == now_ms + match backoff_spec(final(self).failures) {
                Some(d) => d,
                None => DNS_RECONCILE_MAX_BACKOFF_MS,
            },
    {
        if succeeded {
            self.failures = 0;
            self.next_attempt_ms = now_ms;
        } else {
            self.failures = self.failures + 1;
            let delay = match reconcile_backoff(self.failures) {
                Some(d) => d,
                None => DNS_RECONCILE_MAX_BACKOFF_MS,
            };
            proof {
                assert(delay <= DNS_RECONCILE_MAX_BACKOFF_MS);
            }
            self.next_attempt_ms = now_ms + delay;
        }
    }

    /// Whether repair is suspended: the streak reached the cap.
    pub fn suspended(&self) -> (r: bool)
        ensures
            r == (self.failures >= DNS_RECONCILE_MAX_FAILURES),
    {
        self.failures >= DNS_RECONCILE_MAX_FAILURES
    }
}

} // verus!
