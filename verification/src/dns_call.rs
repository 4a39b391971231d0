//! The single-writer claim around DNS engine calls. A claim is registered before the blocking
//! call starts and released only when that call returns, by its own epoch; a caller that times
//! out gives up on the answer, never on the ownership, so no second writer can start while a
//! wedged call is still inside the registry or Dnscache.

use crate::dns_restore::DNS_ENGINE_WEDGED_PREFIX;
use vstd::prelude::*;

verus! {

/// A call handed to a blocking thread that has not come back yet.
#[derive(Clone, Debug, PartialEq, Eq)]
pub struct InFlight {
    pub operation: String,
    pub started_at_ms: u64,
    pub epoch: u64,
    /// Its caller timed out and reported failure; the result is discarded on arrival.
    pub abandoned: bool,
}

/// Two records of the same call state.
pub open spec fn same_call(a: InFlight, b: InFlight) -> bool {
    a.operation@ == b.operation@ && a.started_at_ms == b.started_at_ms && a.epoch == b.epoch
        && a.abandoned == b.abandoned
}

impl InFlight {
    /// A copy with the same value.
    pub fn duplicate(&self) -> (r: InFlight)
        ensures
            same_call(r, *self),
    {
        InFlight {
            operation: self.operation.clone(),
            started_at_ms: self.started_at_ms,
            epoch: self.epoch,
            abandoned: self.abandoned,
        }
    }
}

/// The claim slot and the epoch counter.
#[derive(Clone, Debug, PartialEq, Eq)]
pub struct CallSlot {
    pub in_flight: Option<InFlight>,
    pub next_epoch: u64,
}

/// What `claim` does: refused, naming the call in flight and changing nothing, while one is;
/// otherwise the next epoch, with the new call recorded.
pub open spec fn claim_post(
    before: CallSlot,
    operation: Seq<char>,
    now_ms: u64,
    r: Result<u64, InFlight>,
    after: CallSlot,
) -> bool {
    &&& before.in_flight matches Some(w) ==> (r matches Err(x) && same_call(x, w)) && after == before
    &&& before.in_flight is None ==> r == Ok::<u64, InFlight>(before.next_epoch)
        && after.next_epoch == vstd::wrapping::u64_specs::wrapping_add(before.next_epoch, 1) && (
    after.in_flight matches Some(f) && f.operation@ == operation && f.started_at_ms == now_ms
        && f.epoch == before.next_epoch && !f.abandoned)
}

/// What `release` does: the call of `epoch` clears its own claim and reports whether it had
/// been abandoned; any other epoch changes nothing.
pub open spec fn release_post(before: CallSlot, epoch: u64, r: Option<bool>, after: CallSlot) -> bool {
    &&& after.next_epoch == before.next_epoch
    &&& match before.in_flight {
        Some(c) => if c.epoch == epoch {
            after.in_flight is None && r == Some(c.abandoned)
        } else {
            after == before && r is None
        },
        None => after == before && r is None,
    }
}

/// What `abandon` does: the call of `epoch`, if still in flight, is marked abandoned and keeps
/// the slot; otherwise nothing changes.
pub open spec fn abandon_post(before: CallSlot, epoch: u64, still_running: bool, after: CallSlot) -> bool {
    &&& after.next_epoch == before.next_epoch
    &&& match before.in_flight {
        Some(c) => if c.epoch == epoch {
            still_running && (after.in_flight matches Some(n) && same_call(
                n,
                InFlight { abandoned: true, ..c },
            ))
        } else {
            !still_running && after == before
        },
        None => !still_running && after == before,
    }
}

/// A wedged engine call: its caller times out and abandons it, yet it keeps the claim, so a
/// later writer is refused (told which call is wedged) without starting and the slot stays as
/// it was; only when the wedged call itself returns is the claim cleared, and then the next
/// writer starts.
pub proof fn a_wedged_call_blocks_later_writers(
    s0: CallSlot,
    first: Seq<char>,
    t0: u64,
    claimed: Result<u64, InFlight>,
    s1: CallSlot,
    still_running: bool,
    s2: CallSlot,
    second: Seq<char>,
    t1: u64,
    refused: Result<u64, InFlight>,
    s3: CallSlot,
    returned: Option<bool>,
    s4: CallSlot,
    third: Seq<char>,
    t2: u64,
    again: Result<u64, InFlight>,
    s5: CallSlot,
)
    requires
        s0.in_flight is None,
        claim_post(s0, first, t0, claimed, s1),
        abandon_post(s1, s0.next_epoch, still_running, s2),
        claim_post(s2, second, t1, refused, s3),
        release_post(s3, s0.next_epoch, returned, s4),
        claim_post(s4, third, t2, again, s5),
    ensures
        claimed == Ok::<u64, InFlight>(s0.next_epoch),
        still_running,
        refused matches Err(w) && w.operation@ == first && w.abandoned,
        s3 == s2,
        returned == Some(true),
        s4.in_flight is None,
        again is Ok,
{
}

/// A call that returns, whatever its result, leaves no claim behind.
pub proof fn a_returned_call_leaves_no_claim(
    s0: CallSlot,
    operation: Seq<char>,
    t0: u64,
    claimed: Result<u64, InFlight>,
    s1: CallSlot,
    returned: Option<bool>,
    s2: CallSlot,
)
    requires
        s0.in_flight is None,
        claim_post(s0, operation, t0, claimed, s1),
        release_post(s1, s0.next_epoch, returned, s2),
    ensures
        returned == Some(false),
        s2.in_flight is None,
{
}

impl CallSlot {
    pub fn new() -> (r: CallSlot)
        ensures
            r.in_flight is None,
            r.next_epoch == 0,
    {
        CallSlot { in_flight: None, next_epoch: 0 }
    }

    /// Claim the slot for `operation`: refused (with the wedged call) while any call is in
    /// flight, otherwise the new call's epoch.
    pub fn claim(&mut self, operation: &str, now_ms: u64) -> (r: Result<u64, InFlight>)
        ensures
            claim_post(*old(self), operation@, now_ms, r, *final(self)),
    {
        match &self.in_flight {
            Some(w) => {
                return Err(w.duplicate());
            },
            None => {},
        }
        let epoch = self.next_epoch;
        self.next_epoch = self.next_epoch.wrapping_add(1);
        self.in_flight = Some(
            InFlight { operation: operation.to_string(), started_at_ms: now_ms, epoch, abandoned: false },
        );
        Ok(epoch)
    }

    /// The call of `epoch` returned: its claim is cleared, and only its own. Reports whether
    /// that call had been abandoned (`None` if the slot held another call or none).
    pub fn release(&mut self, epoch: u64) -> (r: Option<bool>)
        ensures
            release_post(*old(self), epoch, r, *final(self)),
    {
        let abandoned = match &self.in_flight {
            Some(c) => if c.epoch == epoch {
                Some(c.abandoned)
            } else {
                None
            },
            None => None,
        };
        if abandoned.is_some() {
            self.in_flight = None;
        }
        abandoned
    }

    /// The caller of `epoch` hit its deadline: mark that call abandoned if it is still the one
    /// in flight. Returns whether it is still running.
    pub fn abandon(&mut self, epoch: u64) -> (still_running: bool)
        ensures
            abandon_post(*old(self), epoch, still_running, *final(self)),
    {
        let matches = match &self.in_flight {
            Some(c) => c.epoch == epoch,
            None => false,
        };
        if matches {
            let mut c = match &self.in_flight {
                Some(c) => c.duplicate(),
                None => {
                    return false;
                },
            };
            c.abandoned = true;
            self.in_flight = Some(c);
        }
        matches
    }
}

/// The status watchdog's two reads are announced at debug level, everything else at info.
pub fn dns_call_is_periodic(operation: &str) -> (r: bool)
    ensures
        r == (operation@ == "collect"@ || operation@ == "verify loopback"@),
{
    crate::dns::str_eq(operation, "collect") || crate::dns::str_eq(operation, "verify loopback")
}

pub open spec fn wedged_text(wedged: Seq<char>, elapsed: Seq<char>, operation: Seq<char>) -> Seq<char> {
    DNS_ENGINE_WEDGED_PREFIX@ + ": the DNS engine has been inside "@ + wedged + " for "@ + elapsed
        + " without returning, so "@ + operation
        + " is refused rather than started as a second concurrent writer. The DNS Client service (Dnscache), a registry filter driver or third-party security software is likely wedged; protected DNS stays in its last known state — including its snapshot — until that call returns or the machine is restarted."@
}

/// The refusal of a call while an earlier one is wedged; `elapsed` is its age as `{:?}`
/// renders it.
pub fn wedged_dns_error(operation: &str, wedged_operation: &str, elapsed: &str) -> (r: String)
    ensures
        r@ == wedged_text(wedged_operation@, elapsed@, operation@),
{
    let mut msg = String::new();
    msg.append(DNS_ENGINE_WEDGED_PREFIX);
    msg.append(": the DNS engine has been inside ");
    msg.append(wedged_operation);
    msg.append(" for ");
    msg.append(elapsed);
    msg.append(" without returning, so ");
    msg.append(operation);
    msg.append(
        " is refused rather than started as a second concurrent writer. The DNS Client service (Dnscache), a registry filter driver or third-party security software is likely wedged; protected DNS stays in its last known state — including its snapshot — until that call returns or the machine is restarted.",
    );
    msg
}

pub open spec fn timeout_text(budget: Seq<char>, operation: Seq<char>) -> Seq<char> {
    DNS_ENGINE_WEDGED_PREFIX@ + ": the DNS engine did not answer within "@ + budget + " during "@
        + operation
        + "; the DNS Client service (Dnscache), a registry filter driver or third-party security software may be wedged. Protected DNS was left in its last known state, its snapshot was kept, and no further DNS operation starts until the pending call returns."@
}

/// The error of a call that missed its deadline; `budget` as `{:?}` renders it.
pub fn dns_call_timeout_error(budget: &str, operation: &str) -> (r: String)
    ensures
        r@ == timeout_text(budget@, operation@),
{
    let mut msg = String::new();
    msg.append(DNS_ENGINE_WEDGED_PREFIX);
    msg.append(": the DNS engine did not answer within ");
    msg.append(budget);
    msg.append(" during ");
    msg.append(operation);
    msg.append(
        "; the DNS Client service (Dnscache), a registry filter driver or third-party security software may be wedged. Protected DNS was left in its last known state, its snapshot was kept, and no further DNS operation starts until the pending call returns.",
    );
    msg
}

} // verus!
