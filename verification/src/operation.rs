//! The one privileged lifecycle operation in flight, observable without joining the lifecycle
//! queue. Clearing is id-checked, so a late end of an old operation cannot erase a newer one,
//! and every publish or clear advances a generation readers use to discard stale aggregates.

use crate::structure::{ServiceOperationKind, ServiceOperationSnapshot};
use vstd::prelude::*;

verus! {

pub struct OperationRegistry {
    pub next_id: u64,
    pub generation: u64,
    pub active: Option<ServiceOperationSnapshot>,
}

impl OperationRegistry {
    pub fn new() -> (r: OperationRegistry)
        ensures
            r.next_id == 1,
            r.generation == 0,
            r.active is None,
    {
        OperationRegistry { next_id: 1, generation: 0, active: None }
    }

    /// Publish a new operation started at `now_ms` with a `budget_ms` deadline (saturating);
    /// returns its id.
    pub fn begin(&mut self, kind: ServiceOperationKind, budget_ms: u64, now_ms: u64) -> (id: u64)
        ensures
            id == old(self).next_id,
            final(self).next_id == vstd::wrapping::u64_specs::wrapping_add(old(self).next_id, 1),
            final(self).generation == vstd::wrapping::u64_specs::wrapping_add(old(self).generation, 1),
            final(self).active == Some(
                ServiceOperationSnapshot {
                    id,
                    kind,
                    started_at_ms: now_ms,
                    deadline_at_ms: if now_ms + budget_ms > u64::MAX {
                        u64::MAX
                    } else {
                        (now_ms + budget_ms) as u64
                    },
                },
            ),
            final(self).active->0.deadline_at_ms >= final(self).active->0.started_at_ms,
    {
        let id = self.next_id;
        self.next_id = self.next_id.wrapping_add(1);
        let deadline_at_ms = now_ms.saturating_add(budget_ms);
        self.active = Some(
            ServiceOperationSnapshot { id, kind, started_at_ms: now_ms, deadline_at_ms },
        );
        self.generation = self.generation.wrapping_add(1);
        id
    }

    /// End the operation `id`: cleared (and the generation advanced) only if it is still the
    /// one published.
    pub fn end(&mut self, id: u64)
        ensures
            final(self).next_id == old(self).next_id,
            old(self).active matches Some(a) && a.id == id ==> final(self).active is None
                && final(self).generation == vstd::wrapping::u64_specs::wrapping_add(
                old(self).generation,
                1,
            ),
            !(old(self).active matches Some(a) && a.id == id) ==> final(self).active == old(
                self,
            ).active && final(self).generation == old(self).generation,
    {
        let current = match &self.active {
            Some(a) => a.id == id,
            None => false,
        };
        if current {
            self.active = None;
            self.generation = self.generation.wrapping_add(1);
        }
    }

    /// The generation and the operation in flight.
    pub fn snapshot(&self) -> (r: (u64, Option<ServiceOperationSnapshot>))
        ensures
            r == (self.generation, self.active),
    {
        (self.generation, self.active)
    }
}

} // verus!
