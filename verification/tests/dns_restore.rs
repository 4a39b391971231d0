use tono_service::dns::{AdapterDnsSnapshot, DnsSnapshot, LiveFailureStreak, LOOPBACK_V4, SNAPSHOT_VERSION};
use tono_service::dns_restore::{
    corrupt_snapshot_reason, count_failed, disarm_gate, dns_status, enable_may_proceed, live_apply_outcome,
    note_live_results, recover_unreadable_verdict, restore_verdict, status_unreadable_error,
    unreadable_on_enable, EnableTrigger, GateAction, RestoreVerdict, SnapshotFile,
};
use tono_service::dns_watchdog::{ReconcileAction, ReconcileState};

fn adapter(guid: &str, v4: Option<&str>) -> AdapterDnsSnapshot {
    AdapterDnsSnapshot {
        interface_guid: guid.to_owned(),
        ipv4_name_server: v4.map(ToOwned::to_owned),
        ..Default::default()
    }
}

fn snapshot() -> DnsSnapshot {
    DnsSnapshot {
        version: SNAPSHOT_VERSION,
        taken_at: 1,
        adapters: vec![adapter("{A}", Some("1.1.1.1"))],
    }
}

const HINT: &str = " Try Disconnect again; if it keeps failing, right-click the Start-Menu entry \"Tono — 恢复网络 (Restore Network)\" and choose \"Run as administrator\", or run `tono-service.exe --emergency-disarm` from an elevated prompt — either one releases the block and puts the saved DNS servers back.";

#[test]
fn a_proven_restore_leaves_the_streak_alone() {
    let mut streak = LiveFailureStreak { consecutive: 2 };
    let verdict = restore_verdict(&snapshot(), &vec![adapter("{A}", Some("1.1.1.1"))], Some(false), &mut streak);
    assert_eq!(verdict, RestoreVerdict::Proven);
    assert_eq!(streak.consecutive, 2);
}

#[test]
fn a_restore_is_still_refused_while_an_adapter_is_provably_on_loopback() {
    let mut streak = LiveFailureStreak { consecutive: 7 };
    let verdict = restore_verdict(&snapshot(), &vec![adapter("{A}", Some("1.1.1.1"))], Some(true), &mut streak);
    let expected = format!(
        "DNS restore could not be proven: adapters on this machine still resolve through Tono's loopback resolver (registry_match=true, still_on_loopback=yes, consecutive_live_apply_failures=7), so protection stays armed rather than leaving DNS pointed at a resolver that is about to stop answering.{HINT}"
    );
    assert_eq!(verdict, RestoreVerdict::Refused(expected));
    assert_eq!(streak.consecutive, 7, "a refusal keeps the streak");
}

#[test]
fn an_unproven_restore_below_the_streak_is_refused() {
    let mut streak = LiveFailureStreak { consecutive: 1 };
    let verdict = restore_verdict(&snapshot(), &vec![adapter("{A}", Some("1.1.1.1"))], None, &mut streak);
    let expected = format!(
        "DNS restore could not be proven (registry_match=true, still_on_loopback=unknown, consecutive_live_apply_failures=1); protection remains armed.{HINT}"
    );
    assert_eq!(verdict, RestoreVerdict::Refused(expected));
}

#[test]
fn a_registry_mismatch_is_refused_whatever_the_streak() {
    let mut streak = LiveFailureStreak { consecutive: 9 };
    let verdict = restore_verdict(&snapshot(), &vec![adapter("{A}", Some(LOOPBACK_V4))], Some(false), &mut streak);
    let expected = format!(
        "DNS restore could not be proven (registry_match=false, still_on_loopback=no, consecutive_live_apply_failures=9); protection remains armed.{HINT}"
    );
    assert_eq!(verdict, RestoreVerdict::Refused(expected));
}

#[test]
fn a_live_apply_failure_does_not_strand_a_machine_whose_dns_is_restored() {
    let mut streak = LiveFailureStreak { consecutive: 3 };
    let verdict = restore_verdict(&snapshot(), &vec![adapter("{A}", Some("1.1.1.1"))], None, &mut streak);
    let expected = "TONO_DNS_RESTORE_DEGRADED: the original DNS servers were restored in the registry and verified by read-back, but the live apply failed 3 rounds in a row and the live DNS state could not be confirmed (still_on_loopback=unknown). Disconnect was allowed rather than leaving the machine locked in Protected Offline. If name resolution misbehaves, disable and re-enable the network adapter (or reboot); PowerShell/WMI on this machine appears to be restricted.".to_owned();
    assert_eq!(verdict, RestoreVerdict::Degraded(expected));
    assert_eq!(streak.consecutive, 0, "the next session must earn the exit on its own");
}

#[test]
fn the_disarm_gate_refuses_an_unreadable_snapshot() {
    assert_eq!(disarm_gate(&SnapshotFile::Absent), GateAction::Open);
    assert_eq!(disarm_gate(&SnapshotFile::Readable), GateAction::ProveRestore);
    assert_eq!(
        disarm_gate(&SnapshotFile::Unreadable("the file is corrupt (eof)".to_owned())),
        GateAction::Refuse("TONO_DNS_SNAPSHOT_UNREADABLE: protected-dns.json cannot be read (the file is corrupt (eof)), so the original DNS servers cannot be proven restored and the disarm is refused; protection stays armed. Restore protected DNS first, which recovers an unreadable snapshot once no adapter resolves through the loopback core, then retry the disconnect; the elevated `--emergency-disarm` remains the documented escape hatch. The unreadable file is kept for diagnosis.".to_owned())
    );
}

#[test]
fn an_explicit_restore_recovers_an_unreadable_snapshot_only_on_positive_evidence() {
    assert_eq!(recover_unreadable_verdict("the file is corrupt (x)", false, false), Ok(()));
    assert_eq!(
        recover_unreadable_verdict("the file is corrupt (x)", true, false),
        Err("TONO_DNS_SNAPSHOT_UNREADABLE: protected-dns.json cannot be read (the file is corrupt (x)) and the machine still resolves through the loopback core (loopback_dns=true, live_apply_failed=false), so the original DNS servers cannot be proven restored and protection stays armed. Set the affected adapters back to automatic (DHCP) DNS — or to the servers you use — and retry the disconnect; the elevated `--emergency-disarm` remains the documented escape hatch. The unreadable file is kept for diagnosis.".to_owned())
    );
    assert!(recover_unreadable_verdict("r", false, true).is_err());
}

#[test]
fn reconciliation_never_starts_protection_from_nothing() {
    assert!(!enable_may_proceed(EnableTrigger::Reconcile, false));
    assert!(enable_may_proceed(EnableTrigger::Reconcile, true));
    assert!(enable_may_proceed(EnableTrigger::Request, false));
}

#[test]
fn an_unreadable_snapshot_is_left_alone_by_reconciliation() {
    assert_eq!(unreadable_on_enable(EnableTrigger::Request, "r"), Ok(()));
    assert_eq!(
        unreadable_on_enable(EnableTrigger::Reconcile, "r"),
        Err("TONO_DNS_SNAPSHOT_UNREADABLE: protected-dns.json cannot be read (r); automatic reconciliation will not act on it — reconnect or disconnect to recover".to_owned())
    );
    assert_eq!(
        status_unreadable_error("the file is corrupt (eof)"),
        "TONO_DNS_SNAPSHOT_UNREADABLE: protected-dns.json (the file is corrupt (eof))"
    );
    assert_eq!(corrupt_snapshot_reason("eof"), "the file is corrupt (eof)");
}

#[test]
fn live_results_are_counted_and_reported() {
    let results = vec![("{A}".to_owned(), true), ("{B}".to_owned(), false), ("{C}".to_owned(), false)];
    assert_eq!(count_failed(&results), 2);
    assert_eq!(live_apply_outcome(&results), Some("live DNS apply failed on 2 adapter(s)".to_owned()));
    assert_eq!(live_apply_outcome(&vec![("{A}".to_owned(), true)]), None);
}

#[test]
fn live_results_update_the_failure_set_and_the_first_matching_adapter() {
    let mut snap = DnsSnapshot {
        version: SNAPSHOT_VERSION,
        taken_at: 1,
        adapters: vec![adapter("{A}", None), adapter("{B}", None), adapter("{A}", None)],
    };
    snap.adapters[1].live_apply_failed = true;
    let mut failures = vec!["{B}".to_owned()];
    note_live_results(
        &mut snap,
        &mut failures,
        &vec![("{A}".to_owned(), false), ("{B}".to_owned(), true), ("{Z}".to_owned(), false)],
    );
    assert!(snap.adapters[0].live_apply_failed);
    assert!(!snap.adapters[1].live_apply_failed);
    assert!(!snap.adapters[2].live_apply_failed, "only the first adapter with the GUID");
    failures.sort();
    assert_eq!(failures, vec!["{A}".to_owned(), "{Z}".to_owned()]);
}

#[test]
fn status_reports_enabled_only_with_a_snapshot() {
    let s = snapshot();
    let status = dns_status(true, Some(&s), None);
    assert!(status.enabled && status.snapshot_present);
    assert_eq!(status.adapters, 1);
    let none = dns_status(true, None, Some("e".to_owned()));
    assert!(!none.enabled && !none.snapshot_present);
    assert_eq!(none.adapters, 0);
    assert_eq!(none.last_error, Some("e".to_owned()));
}

#[test]
fn the_watchdog_repairs_only_wanted_drift_and_suspends_after_five_failures() {
    let mut state = ReconcileState::new(0);
    assert_eq!(state.tick(false, true, false, 10), ReconcileAction::Idle);
    assert_eq!(state.tick(true, false, false, 10), ReconcileAction::Idle);
    assert_eq!(state.tick(true, true, true, 10), ReconcileAction::Idle);
    assert_eq!(state.tick(true, true, false, 10), ReconcileAction::Repair);
    state.record_repair(false, 10);
    assert_eq!(state.failures, 1);
    assert_eq!(state.next_attempt_ms, 2_010);
    assert_eq!(state.tick(true, true, false, 2_009), ReconcileAction::Wait);
    assert_eq!(state.tick(true, true, false, 2_010), ReconcileAction::Repair);
    for _ in 0..4 {
        state.record_repair(false, 100_000);
    }
    assert_eq!(state.failures, 5);
    assert!(state.suspended());
    assert_eq!(state.next_attempt_ms, 160_000);
    assert_eq!(state.tick(true, true, false, 1_000_000), ReconcileAction::Wait);
    assert_eq!(state.tick(true, true, true, 1_000_001), ReconcileAction::Idle);
    assert_eq!(state.failures, 0, "a healthy tick re-arms the repair");
    assert_eq!(state.next_attempt_ms, 1_000_001);
    state.record_repair(true, 5);
    assert_eq!(state.failures, 0);
}
