//! The decisions of the protected-DNS facade: what a restore attempt concludes, when an
//! unreadable snapshot may be recovered, and how per-adapter live results are recorded.
//!
//! The disarm gate rests on [`restore_verdict`]: a machine that provably still resolves
//! through the loopback core is refused, whatever the failure streak says.

use crate::dns::{
    live_label_spec, live_loopback_label, registry_restore_matches, registry_restore_spec,
    restore_is_proven, restore_is_proven_spec, restore_established_without_snapshot,
    adapters_view, AdapterView, DnsSnapshot, LiveFailureStreak, SnapshotView, DEGRADED_RESTORE_STREAK,
};
use crate::structure::DnsProtectionStatus;
use crate::text::{dec_text, push_decimal, strings_view};
use vstd::prelude::*;

verus! {

/// Marker for "the DNS engine stopped answering"; the App matches it by substring.
pub const DNS_ENGINE_WEDGED_PREFIX: &'static str = "TONO_DNS_ENGINE_WEDGED";
/// Marker for "the snapshot cannot be read and the machine still resolves through loopback".
pub const DNS_SNAPSHOT_UNREADABLE_PREFIX: &'static str = "TONO_DNS_SNAPSHOT_UNREADABLE";
/// Marker for a restore accepted on registry evidence alone; a warning, not a failure.
pub const DNS_RESTORE_DEGRADED_PREFIX: &'static str = "TONO_DNS_RESTORE_DEGRADED";

pub open spec fn bool_text(b: bool) -> Seq<char> {
    if b {
        "true"@
    } else {
        "false"@
    }
}

fn push_bool(out: &mut String, b: bool)
    ensures
        final(out)@ == old(out)@ + bool_text(b),
{
    if b {
        out.append("true");
    } else {
        out.append("false");
    }
}

/// The way forward every refused restore names.
pub open spec fn recovery_hint() -> Seq<char> {
    " Try Disconnect again; if it keeps failing, right-click the Start-Menu entry \"Tono — 恢复网络 (Restore Network)\" and choose \"Run as administrator\", or run `tono-service.exe --emergency-disarm` from an elevated prompt — either one releases the block and puts the saved DNS servers back."@
}

pub open spec fn evidence_text(registry: bool, live: Option<bool>, streak: u32) -> Seq<char> {
    "registry_match="@ + bool_text(registry) + ", still_on_loopback="@ + live_label_spec(live)
        + ", consecutive_live_apply_failures="@ + dec_text(streak as nat)
}

/// Refusal while adapters provably still resolve through the loopback core.
pub open spec fn loopback_refusal_text(registry: bool, live: Option<bool>, streak: u32) -> Seq<char> {
    "DNS restore could not be proven: adapters on this machine still resolve through Tono's loopback resolver ("@
        + evidence_text(registry, live, streak)
        + "), so protection stays armed rather than leaving DNS pointed at a resolver that is about to stop answering."@
        + recovery_hint()
}

/// Refusal when the restore is unproven and the degraded exit does not apply.
pub open spec fn unproven_refusal_text(registry: bool, live: Option<bool>, streak: u32) -> Seq<char> {
    "DNS restore could not be proven ("@ + evidence_text(registry, live, streak)
        + "); protection remains armed."@ + recovery_hint()
}

/// The warning a degraded acceptance leaves in `last_error`.
pub open spec fn degraded_note_text(live: Option<bool>, streak: u32) -> Seq<char> {
    DNS_RESTORE_DEGRADED_PREFIX@
        + ": the original DNS servers were restored in the registry and verified by read-back, but the live apply failed "@
        + dec_text(streak as nat)
        + " rounds in a row and the live DNS state could not be confirmed (still_on_loopback="@
        + live_label_spec(live)
        + "). Disconnect was allowed rather than leaving the machine locked in Protected Offline. If name resolution misbehaves, disable and re-enable the network adapter (or reboot); PowerShell/WMI on this machine appears to be restricted."@
}

fn push_evidence(out: &mut String, registry: bool, live: Option<bool>, streak: u32)
    ensures
        final(out)@ == old(out)@ + evidence_text(registry, live, streak),
{
    out.append("registry_match=");
    push_bool(out, registry);
    out.append(", still_on_loopback=");
    out.append(live_loopback_label(live));
    out.append(", consecutive_live_apply_failures=");
    push_decimal(out, streak as u64);
}

/// What a restore attempt concludes.
#[derive(Clone, Debug, PartialEq, Eq)]
pub enum RestoreVerdict {
    /// Registry read-back and live evidence both prove the restore.
    Proven,
    /// Accepted on an exact registry match after a sustained live-apply failure; the note
    /// must reach `last_error`.
    Degraded(String),
    /// Refused: the snapshot is kept and the kill switch stays armed.
    Refused(String),
}

pub ghost enum VerdictView {
    Proven,
    Degraded(Seq<char>),
    Refused(Seq<char>),
}

impl View for RestoreVerdict {
    type V = VerdictView;

    open spec fn view(&self) -> VerdictView {
        match self {
            RestoreVerdict::Proven => VerdictView::Proven,
            RestoreVerdict::Degraded(s) => VerdictView::Degraded(s@),
            RestoreVerdict::Refused(s) => VerdictView::Refused(s@),
        }
    }
}

pub open spec fn verdict_spec(
    snapshot: SnapshotView,
    current: Seq<AdapterView>,
    live: Option<bool>,
    streak: u32,
) -> VerdictView {
    let registry = registry_restore_spec(snapshot, current);
    if restore_is_proven_spec(snapshot, current, live) {
        VerdictView::Proven
    } else if live == Some(true) {
        VerdictView::Refused(loopback_refusal_text(registry, live, streak))
    } else if registry && streak >= DEGRADED_RESTORE_STREAK {
        VerdictView::Degraded(degraded_note_text(live, streak))
    } else {
        VerdictView::Refused(unproven_refusal_text(registry, live, streak))
    }
}

/// A restore is refused while any adapter provably still resolves through the loopback core,
/// whatever the failure streak and the registry say.
pub proof fn refused_while_on_loopback(snapshot: SnapshotView, current: Seq<AdapterView>, streak: u32)
    ensures
        verdict_spec(snapshot, current, Some(true), streak) is Refused,
{
}

/// A proven restore needs positive live evidence and an exact registry read-back; a degraded
/// one needs the exact read-back, a sustained failure streak and no proof of loopback.
pub proof fn restore_acceptance_needs_evidence(
    snapshot: SnapshotView,
    current: Seq<AdapterView>,
    live: Option<bool>,
    streak: u32,
)
    ensures
        verdict_spec(snapshot, current, live, streak) is Proven ==> live == Some(false)
            && registry_restore_spec(snapshot, current),
        verdict_spec(snapshot, current, live, streak) is Degraded ==> registry_restore_spec(
            snapshot,
            current,
        ) && streak >= DEGRADED_RESTORE_STREAK && live != Some(true),
{
}

/// Decide a restore from the registry read-back (`current`), the live loopback evidence over
/// the adapters that owe it, and the failure streak. A degraded acceptance starts the streak
/// again, so the next session must earn that exit on its own; every other verdict leaves it.
pub fn restore_verdict(
    snapshot: &DnsSnapshot,
    current: &Vec<crate::dns::AdapterDnsSnapshot>,
    live_loopback: Option<bool>,
    streak: &mut LiveFailureStreak,
) -> (r: RestoreVerdict)
    ensures
        r@ == verdict_spec(snapshot@, adapters_view(current@), live_loopback, old(streak).consecutive),
        r is Degraded ==> final(streak).consecutive == 0,
        !(r is Degraded) ==> final(streak).consecutive == old(streak).consecutive,
{
    if restore_is_proven(snapshot, current, live_loopback) {
        return RestoreVerdict::Proven;
    }
    let registry = registry_restore_matches(snapshot, current);
    let n = streak.consecutive;
    if live_loopback == Some(true) {
        let mut msg = String::new();
        msg.append(
            "DNS restore could not be proven: adapters on this machine still resolve through Tono's loopback resolver (",
        );
        push_evidence(&mut msg, registry, live_loopback, n);
        msg.append(
            "), so protection stays armed rather than leaving DNS pointed at a resolver that is about to stop answering.",
        );
        msg.append(
            " Try Disconnect again; if it keeps failing, right-click the Start-Menu entry \"Tono — 恢复网络 (Restore Network)\" and choose \"Run as administrator\", or run `tono-service.exe --emergency-disarm` from an elevated prompt — either one releases the block and puts the saved DNS servers back.",
        );
        return RestoreVerdict::Refused(msg);
    }
    if !crate::dns::accepts_degraded_restore(n, registry) {
        let mut msg = String::new();
        msg.append("DNS restore could not be proven (");
        push_evidence(&mut msg, registry, live_loopback, n);
        msg.append("); protection remains armed.");
        msg.append(
            " Try Disconnect again; if it keeps failing, right-click the Start-Menu entry \"Tono — 恢复网络 (Restore Network)\" and choose \"Run as administrator\", or run `tono-service.exe --emergency-disarm` from an elevated prompt — either one releases the block and puts the saved DNS servers back.",
        );
        return RestoreVerdict::Refused(msg);
    }
    streak.consecutive = 0;
    let mut note = String::new();
    note.append(DNS_RESTORE_DEGRADED_PREFIX);
    note.append(
        ": the original DNS servers were restored in the registry and verified by read-back, but the live apply failed ",
    );
    push_decimal(&mut note, n as u64);
    note.append(
        " rounds in a row and the live DNS state could not be confirmed (still_on_loopback=",
    );
    note.append(live_loopback_label(live_loopback));
    note.append(
        "). Disconnect was allowed rather than leaving the machine locked in Protected Offline. If name resolution misbehaves, disable and re-enable the network adapter (or reboot); PowerShell/WMI on this machine appears to be restricted.",
    );
    RestoreVerdict::Degraded(note)
}

/// The refusal of a snapshot-less recovery while the machine may still resolve through loopback.
pub open spec fn unreadable_refusal_text(reason: Seq<char>, any_loopback: bool, live_apply_failed: bool) -> Seq<char> {
    DNS_SNAPSHOT_UNREADABLE_PREFIX@ + ": protected-dns.json cannot be read ("@ + reason
        + ") and the machine still resolves through the loopback core (loopback_dns="@
        + bool_text(any_loopback) + ", live_apply_failed="@ + bool_text(live_apply_failed)
        + "), so the original DNS servers cannot be proven restored and protection stays armed. Set the affected adapters back to automatic (DHCP) DNS — or to the servers you use — and retry the disconnect; the elevated `--emergency-disarm` remains the documented escape hatch. The unreadable file is kept for diagnosis."@
}

/// Recovery from an unreadable snapshot, run by an explicit restore or enable request (never by
/// the disarm gate): `Ok` (quarantine the file) exactly when restoration holds without it,
/// otherwise the refusal naming both ways forward.
pub fn recover_unreadable_verdict(reason: &str, any_loopback: bool, live_apply_failed: bool) -> (r:
    Result<(), String>)
    ensures
        r is Ok <==> (!any_loopback && !live_apply_failed),
        r matches Err(m) ==> m@ == unreadable_refusal_text(reason@, any_loopback, live_apply_failed),
{
    if restore_established_without_snapshot(any_loopback, live_apply_failed) {
        return Ok(());
    }
    let mut msg = String::new();
    msg.append(DNS_SNAPSHOT_UNREADABLE_PREFIX);
    msg.append(": protected-dns.json cannot be read (");
    msg.append(reason);
    msg.append(") and the machine still resolves through the loopback core (loopback_dns=");
    push_bool(&mut msg, any_loopback);
    msg.append(", live_apply_failed=");
    push_bool(&mut msg, live_apply_failed);
    msg.append(
        "), so the original DNS servers cannot be proven restored and protection stays armed. Set the affected adapters back to automatic (DHCP) DNS — or to the servers you use — and retry the disconnect; the elevated `--emergency-disarm` remains the documented escape hatch. The unreadable file is kept for diagnosis.",
    );
    Err(msg)
}

/// What the disarm gate finds where the snapshot is kept.
#[derive(Clone, Debug, PartialEq, Eq)]
pub enum SnapshotFile {
    /// No snapshot: no protection is in force.
    Absent,
    /// A snapshot that parses and that this build understands.
    Readable,
    /// A snapshot that cannot be used, with the reason.
    Unreadable(String),
}

/// What the disarm gate does.
#[derive(Clone, Debug, PartialEq, Eq)]
pub enum GateAction {
    /// Nothing to restore: the disarm may go on.
    Open,
    /// Restore the snapshot and prove it; only a proven restore lets the disarm go on.
    ProveRestore,
    /// Refuse the disarm with this error; the block stays armed and the file stays.
    Refuse(String),
}

pub open spec fn gate_unreadable_text(reason: Seq<char>) -> Seq<char> {
    DNS_SNAPSHOT_UNREADABLE_PREFIX@ + ": protected-dns.json cannot be read ("@ + reason
        + "), so the original DNS servers cannot be proven restored and the disarm is refused; protection stays armed. Restore protected DNS first, which recovers an unreadable snapshot once no adapter resolves through the loopback core, then retry the disconnect; the elevated `--emergency-disarm` remains the documented escape hatch. The unreadable file is kept for diagnosis."@
}

/// The disarm gate. An unreadable snapshot is never recovered here: the disarm is refused
/// until an explicit restore has dealt with it (see `recover_unreadable_verdict`).
pub fn disarm_gate(file: &SnapshotFile) -> (r: GateAction)
    ensures
        *file == SnapshotFile::Absent ==> r == GateAction::Open,
        *file == SnapshotFile::Readable ==> r == GateAction::ProveRestore,
        file matches SnapshotFile::Unreadable(reason) ==> (r matches GateAction::Refuse(m) && m@
            == gate_unreadable_text(reason@)),
{
    match file {
        SnapshotFile::Absent => GateAction::Open,
        SnapshotFile::Readable => GateAction::ProveRestore,
        SnapshotFile::Unreadable(reason) => {
            let mut msg = String::new();
            msg.append(DNS_SNAPSHOT_UNREADABLE_PREFIX);
            msg.append(": protected-dns.json cannot be read (");
            msg.append(reason.as_str());
            msg.append(
                "), so the original DNS servers cannot be proven restored and the disarm is refused; protection stays armed. Restore protected DNS first, which recovers an unreadable snapshot once no adapter resolves through the loopback core, then retry the disconnect; the elevated `--emergency-disarm` remains the documented escape hatch. The unreadable file is kept for diagnosis.",
            );
            GateAction::Refuse(msg)
        },
    }
}

/// Why an enable is running: an explicit request may start protection from nothing, a
/// reconciliation may only re-apply a snapshot that already exists.
#[derive(Clone, Copy, Debug, PartialEq, Eq, Structural)]
pub enum EnableTrigger {
    Request,
    Reconcile,
}

/// Reconciliation never captures originals: without a snapshot it stops before collecting.
pub fn enable_may_proceed(trigger: EnableTrigger, snapshot_present: bool) -> (r: bool)
    ensures
        r == !(trigger == EnableTrigger::Reconcile && !snapshot_present),
{
    !(trigger == EnableTrigger::Reconcile && !snapshot_present)
}

pub open spec fn reconcile_unreadable_text(reason: Seq<char>) -> Seq<char> {
    DNS_SNAPSHOT_UNREADABLE_PREFIX@ + ": protected-dns.json cannot be read ("@ + reason
        + "); automatic reconciliation will not act on it — reconnect or disconnect to recover"@
}

/// An unreadable snapshot met by an enable: a request goes on to the recovery (`Ok`), a
/// background reconciliation refuses to act on it.
pub fn unreadable_on_enable(trigger: EnableTrigger, reason: &str) -> (r: Result<(), String>)
    ensures
        r is Ok <==> trigger == EnableTrigger::Request,
        r matches Err(m) ==> m@ == reconcile_unreadable_text(reason@),
{
    match trigger {
        EnableTrigger::Request => Ok(()),
        EnableTrigger::Reconcile => {
            let mut msg = String::new();
            msg.append(DNS_SNAPSHOT_UNREADABLE_PREFIX);
            msg.append(": protected-dns.json cannot be read (");
            msg.append(reason);
            msg.append(
                "); automatic reconciliation will not act on it — reconnect or disconnect to recover",
            );
            Err(msg)
        },
    }
}

pub open spec fn status_unreadable_text(reason: Seq<char>) -> Seq<char> {
    DNS_SNAPSHOT_UNREADABLE_PREFIX@ + ": protected-dns.json ("@ + reason + ")"@
}

/// The error a status read reports for an unreadable snapshot.
pub fn status_unreadable_error(reason: &str) -> (r: String)
    ensures
        r@ == status_unreadable_text(reason@),
{
    let mut msg = String::new();
    msg.append(DNS_SNAPSHOT_UNREADABLE_PREFIX);
    msg.append(": protected-dns.json (");
    msg.append(reason);
    msg.append(")");
    msg
}

/// The reason a snapshot file that does not parse is unusable.
pub fn corrupt_snapshot_reason(error: &str) -> (r: String)
    ensures
        r@ == "the file is corrupt ("@ + error@ + ")"@,
{
    let mut msg = String::new();
    msg.append("the file is corrupt (");
    msg.append(error);
    msg.append(")");
    msg
}

/// The number of adapters whose live apply failed.
pub open spec fn failed_count(results: Seq<(Seq<char>, bool)>) -> nat
    decreases results.len(),
{
    if results.len() == 0 {
        0
    } else {
        failed_count(results.drop_last()) + if results.last().1 {
            0nat
        } else {
            1nat
        }
    }
}

pub open spec fn results_view(v: Seq<(String, bool)>) -> Seq<(Seq<char>, bool)> {
    v.map_values(|p: (String, bool)| (p.0@, p.1))
}

proof fn lemma_failed_count_bound(results: Seq<(Seq<char>, bool)>)
    ensures
        failed_count(results) <= results.len(),
    decreases results.len(),
{
    if results.len() > 0 {
        lemma_failed_count_bound(results.drop_last());
    }
}

/// How many live applies failed in one round.
pub fn count_failed(results: &Vec<(String, bool)>) -> (r: usize)
    ensures
        r == failed_count(results_view(results@)),
{
    let ghost rv = results_view(results@);
    let mut n: usize = 0;
    let mut i: usize = 0;
    while i < results.len()
        invariant
            i <= results@.len(),
            rv == results_view(results@),
            n == failed_count(rv.take(i as int)),
            n <= i,
        decreases results@.len() - i,
    {
        proof {
            assert(rv.take(i + 1).drop_last() =~= rv.take(i as int));
            assert(rv.take(i + 1).last() == rv[i as int]);
        }
        if !results[i].1 {
            n = n + 1;
        }
        i = i + 1;
    }
    proof {
        assert(rv.take(rv.len() as int) =~= rv);
    }
    n
}

pub open spec fn live_failure_text(failed: nat) -> Seq<char> {
    "live DNS apply failed on "@ + dec_text(failed) + " adapter(s)"@
}

/// The error of a round in which some live apply failed, `None` when all succeeded.
pub fn live_apply_outcome(results: &Vec<(String, bool)>) -> (r: Option<String>)
    ensures
        failed_count(results_view(results@)) == 0 <==> r is None,
        r matches Some(m) ==> m@ == live_failure_text(failed_count(results_view(results@))),
{
    let failed = count_failed(results);
    if failed == 0 {
        return None;
    }
    let mut msg = String::new();
    msg.append("live DNS apply failed on ");
    push_decimal(&mut msg, failed as u64);
    msg.append(" adapter(s)");
    Some(msg)
}

/// The status report: protection counts as enabled only on positive evidence, and the adapter
/// count is the snapshot's.
pub fn dns_status(enabled: bool, snapshot: Option<&DnsSnapshot>, last_error: Option<String>) -> (r:
    DnsProtectionStatus)
    ensures
        r.enabled == (enabled && snapshot is Some),
        r.snapshot_present == snapshot is Some,
        r.adapters == match snapshot {
            Some(s) => s.adapters@.len() as u32,
            None => 0u32,
        },
        r.last_error == last_error,
{
    match snapshot {
        Some(s) => DnsProtectionStatus {
            enabled,
            snapshot_present: true,
            adapters: s.adapters.len() as u32,
            last_error,
        },
        None => DnsProtectionStatus { enabled: false, snapshot_present: false, adapters: 0, last_error },
    }
}

/// `k` is the first adapter recorded under `g`.
pub open spec fn is_first(s: Seq<AdapterView>, g: Seq<char>, k: int) -> bool {
    0 <= k < s.len() && s[k].guid == g && forall|j: int| 0 <= j < k ==> s[j].guid != g
}

/// One live result recorded on the first adapter with its GUID; a GUID the snapshot does
/// not hold changes nothing.
pub open spec fn apply_result(s: Seq<AdapterView>, g: Seq<char>, ok: bool) -> Seq<AdapterView> {
    if exists|k: int| is_first(s, g, k) {
        let k = choose|k: int| is_first(s, g, k);
        s.update(k, AdapterView { live_apply_failed: !ok, ..s[k] })
    } else {
        s
    }
}

pub open spec fn apply_results(s: Seq<AdapterView>, results: Seq<(Seq<char>, bool)>) -> Seq<AdapterView>
    decreases results.len(),
{
    if results.len() == 0 {
        s
    } else {
        let prev = apply_results(s, results.drop_last());
        apply_result(prev, results.last().0, results.last().1)
    }
}

/// The in-memory failure set after a round: a success clears the GUID, a failure records it.
pub open spec fn failures_after(set: Set<Seq<char>>, results: Seq<(Seq<char>, bool)>) -> Set<Seq<char>>
    decreases results.len(),
{
    if results.len() == 0 {
        set
    } else {
        let prev = failures_after(set, results.drop_last());
        if results.last().1 {
            prev.remove(results.last().0)
        } else {
            prev.insert(results.last().0)
        }
    }
}

proof fn lemma_push_contains(s: Seq<Seq<char>>, e: Seq<char>, x: Seq<char>)
    ensures
        s.push(e).contains(x) <==> (s.contains(x) || x == e),
{
    let t = s.push(e);
    if x == e {
        assert(t[s.len() as int] == x);
    }
    if s.contains(x) {
        let j = choose|j: int| 0 <= j < s.len() && s[j] == x;
        assert(t[j] == x);
    }
    if t.contains(x) {
        let j = choose|j: int| 0 <= j < t.len() && t[j] == x;
        if j < s.len() {
            assert(s[j] == x);
        }
    }
}

proof fn lemma_filtered_step(
    before: Seq<Seq<char>>,
    i: int,
    g: Seq<char>,
    prev: Seq<Seq<char>>,
    next: Seq<Seq<char>>,
)
    requires
        0 <= i < before.len(),
        forall|x: Seq<char>| prev.contains(x) <==> (before.take(i).contains(x) && x != g),
        before.no_duplicates() ==> prev.no_duplicates(),
        before[i] != g ==> next == prev.push(before[i]),
        before[i] == g ==> next == prev,
    ensures
        forall|x: Seq<char>| next.contains(x) <==> (before.take(i + 1).contains(x) && x != g),
        before.no_duplicates() ==> next.no_duplicates(),
{
    let t = before.take(i + 1);
    assert(t =~= before.take(i).push(before[i]));
    assert forall|x: Seq<char>| next.contains(x) <==> (t.contains(x) && x != g) by {
        lemma_push_contains(before.take(i), before[i], x);
        if before[i] != g {
            lemma_push_contains(prev, before[i], x);
        }
    }
    if before.no_duplicates() && before[i] != g {
        assert(!prev.contains(before[i])) by {
            if before.take(i).contains(before[i]) {
                let j = choose|j: int| 0 <= j < i && before.take(i)[j] == before[i];
                assert(before[j] == before[i]);
            }
        }
    }
}

fn remove_string(v: &mut Vec<String>, g: &String)
    ensures
        strings_view(final(v)@).to_set() == strings_view(old(v)@).to_set().remove(g@),
        strings_view(old(v)@).no_duplicates() ==> strings_view(final(v)@).no_duplicates(),
{
    let ghost before = strings_view(v@);
    let mut kept: Vec<String> = Vec::new();
    let mut i: usize = 0;
    while i < v.len()
        invariant
            i <= v@.len(),
            before == strings_view(v@),
            forall|x: Seq<char>|
                strings_view(kept@).contains(x) <==> (before.take(i as int).contains(x) && x != g@),
            before.no_duplicates() ==> strings_view(kept@).no_duplicates(),
        decreases v@.len() - i,
    {
        let ghost prev = kept@;
        let same = v[i] == *g;
        proof {
            assert(before[i as int] == v@[i as int]@);
            assert(same == (before[i as int] == g@));
        }
        if !same {
            kept.push(v[i].clone());
        }
        proof {
            if !same {
                assert(strings_view(kept@) =~= strings_view(prev).push(before[i as int]));
            } else {
                assert(strings_view(kept@) =~= strings_view(prev));
            }
            lemma_filtered_step(before, i as int, g@, strings_view(prev), strings_view(kept@));
        }
        i = i + 1;
    }
    proof {
        assert(before.take(before.len() as int) =~= before);
        assert(strings_view(kept@).to_set() =~= before.to_set().remove(g@));
    }
    *v = kept;
}

fn insert_string(v: &mut Vec<String>, g: &String)
    ensures
        strings_view(final(v)@).to_set() == strings_view(old(v)@).to_set().insert(g@),
        strings_view(old(v)@).no_duplicates() ==> strings_view(final(v)@).no_duplicates(),
{
    let ghost before = strings_view(v@);
    let mut i: usize = 0;
    while i < v.len()
        invariant
            i <= v@.len(),
            before == strings_view(v@),
            forall|j: int| 0 <= j < i ==> before[j] != g@,
        decreases v@.len() - i,
    {
        if v[i] == *g {
            proof {
                assert(before[i as int] == g@);
                assert(before.to_set().insert(g@) =~= before.to_set());
            }
            return;
        }
        i = i + 1;
    }
    v.push(g.clone());
    proof {
        assert(strings_view(v@) =~= before.push(g@));
        before.lemma_push_to_set_commute(g@);
        if before.no_duplicates() {
            assert(!before.contains(g@));
        }
    }
}

/// Record one round of per-adapter live results: in the in-memory failure set and on the
/// first snapshot adapter with each GUID. The failure list stands for a set: it changes as the
/// set does, and a list without repeats (such as the empty one it starts as) keeps none.
pub fn note_live_results(
    snapshot: &mut DnsSnapshot,
    failures: &mut Vec<String>,
    results: &Vec<(String, bool)>,
)
    ensures
        final(snapshot)@ == (SnapshotView {
            adapters: apply_results(old(snapshot)@.adapters, results_view(results@)),
            ..old(snapshot)@
        }),
        strings_view(final(failures)@).to_set() == failures_after(
            strings_view(old(failures)@).to_set(),
            results_view(results@),
        ),
        strings_view(old(failures)@).no_duplicates() ==> strings_view(final(failures)@).no_duplicates(),
{
    let ghost rv = results_view(results@);
    let ghost s0 = snapshot@;
    let ghost f0 = strings_view(failures@);
    let mut i: usize = 0;
    while i < results.len()
        invariant
            i <= results@.len(),
            rv == results_view(results@),
            snapshot@ == (SnapshotView { adapters: apply_results(s0.adapters, rv.take(i as int)), ..s0 }),
            strings_view(failures@).to_set() == failures_after(f0.to_set(), rv.take(i as int)),
            f0.no_duplicates() ==> strings_view(failures@).no_duplicates(),
        decreases results@.len() - i,
    {
        let guid = &results[i].0;
        let ok = results[i].1;
        proof {
            assert(rv.take(i + 1).drop_last() =~= rv.take(i as int));
            assert(rv.take(i + 1).last() == rv[i as int]);
            assert(rv[i as int] == (guid@, ok));
        }
        if ok {
            remove_string(failures, guid);
        } else {
            insert_string(failures, guid);
        }
        let ghost cur = snapshot@.adapters;
        let mut k: usize = 0;
        while k < snapshot.adapters.len()
            invariant
                k <= snapshot.adapters@.len(),
                cur == adapters_view(snapshot.adapters@),
                forall|j: int| 0 <= j < k ==> cur[j].guid != guid@,
            ensures
                k <= snapshot.adapters@.len(),
                forall|j: int| 0 <= j < k ==> cur[j].guid != guid@,
                k < snapshot.adapters@.len() ==> cur[k as int].guid == guid@,
            decreases snapshot.adapters@.len() - k,
        {
            if snapshot.adapters[k].interface_guid == *guid {
                break;
            }
            k = k + 1;
        }
        if k < snapshot.adapters.len() {
            proof {
                assert(is_first(cur, guid@, k as int));
                let c = choose|c: int| is_first(cur, guid@, c);
                assert(c == k) by {
                    if c < k {
                        assert(cur[c].guid != guid@);
                    } else if c > k {
                        assert(cur[k as int].guid != guid@);
                    }
                }
            }
            let mut a = snapshot.adapters[k].duplicate();
            a.live_apply_failed = !ok;
            let ghost vec_before = snapshot.adapters@;
            snapshot.adapters.set(k, a);
            proof {
                assert(adapters_view(snapshot.adapters@) =~= cur.update(
                    k as int,
                    AdapterView { live_apply_failed: !ok, ..cur[k as int] },
                ));
            }
        } else {
            proof {
                assert(!exists|c: int| is_first(cur, guid@, c));
            }
        }
        i = i + 1;
    }
    proof {
        assert(rv.take(rv.len() as int) =~= rv);
    }
}

} // verus!
