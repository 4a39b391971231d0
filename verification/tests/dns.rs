use tono_service::dns::{
    accepts_degraded_restore, adapters_owing_live_proof, check_snapshot_version,
    format_name_server_list, is_active_dns_adapter, is_loopback_value, is_protected_v6_value,
    merge_snapshot, needs_loopback_replay, parse_name_server_list, reconcile_backoff,
    registry_values_match, restore_established_without_snapshot, restore_is_proven,
    restored_live_servers_v4, restored_live_servers_v6, with_live_failures, AdapterDnsSnapshot,
    DnsSnapshot, LiveFailureStreak, DEGRADED_RESTORE_STREAK, DNS_RECONCILE_MAX_BACKOFF_MS,
    DNS_RECONCILE_MAX_FAILURES, DNS_WATCHDOG_INTERVAL_MS, LOOPBACK_V4, LOOPBACK_V6,
    NO_NAME_SERVERS, SNAPSHOT_VERSION,
};

fn adapter(guid: &str, v4: Option<&str>) -> AdapterDnsSnapshot {
    AdapterDnsSnapshot {
        interface_guid: guid.to_owned(),
        ipv4_name_server: v4.map(ToOwned::to_owned),
        ..Default::default()
    }
}

#[test]
fn name_server_lists_tolerate_messy_registry_values() {
    assert_eq!(
        parse_name_server_list(" 1.1.1.1 , ,8.8.8.8, "),
        vec!["1.1.1.1".to_owned(), "8.8.8.8".to_owned()]
    );
    assert!(parse_name_server_list("").is_empty());
    assert_eq!(
        format_name_server_list(&vec!["1.1.1.1".to_owned(), "8.8.8.8".to_owned()]),
        "1.1.1.1,8.8.8.8"
    );
}

#[test]
fn loopback_detection_is_exact() {
    assert!(is_loopback_value(Some("127.0.0.1")));
    assert!(is_loopback_value(Some(LOOPBACK_V6)));
    assert!(is_loopback_value(Some("127.0.0.1, ::1")));
    assert!(!is_loopback_value(Some("127.0.0.1, 1.1.1.1")));
    assert!(!is_loopback_value(Some("1.1.1.1")));
    assert!(!is_loopback_value(Some("")));
    assert!(!is_loopback_value(None));
}

#[test]
fn an_empty_ipv6_server_list_is_the_protected_state() {
    assert!(is_protected_v6_value(Some(NO_NAME_SERVERS)));
    assert!(is_protected_v6_value(Some("  ,  ")));
    assert!(is_protected_v6_value(Some(LOOPBACK_V6)));
    assert!(!is_protected_v6_value(None));
    assert!(!is_protected_v6_value(Some("2606:4700:4700::1111")));
    assert!(!is_loopback_value(Some(NO_NAME_SERVERS)));
}

#[test]
fn only_up_non_loopback_adapters_with_a_bound_ip_stack_are_protected() {
    assert!(is_active_dns_adapter(1, 6, true), "up ethernet");
    assert!(is_active_dns_adapter(1, 71, true), "up wi-fi");
    assert!(is_active_dns_adapter(1, 131, true), "up tunnel");
    assert!(!is_active_dns_adapter(2, 6, true), "down ethernet");
    assert!(!is_active_dns_adapter(1, 24, true), "software loopback");
    assert!(!is_active_dns_adapter(1, 6, false));
}

#[test]
fn enable_preserves_originals_and_appends_new_adapters() {
    let original = DnsSnapshot {
        version: SNAPSHOT_VERSION,
        taken_at: 1,
        adapters: vec![adapter("{A}", Some("1.1.1.1"))],
    };
    let fresh = DnsSnapshot {
        version: SNAPSHOT_VERSION,
        taken_at: 2,
        adapters: vec![
            adapter("{A}", Some(LOOPBACK_V4)),
            adapter("{NEW}", Some("9.9.9.9")),
        ],
    };
    let merged = merge_snapshot(Some(original.clone()), fresh.clone());
    assert_eq!(merged.taken_at, original.taken_at);
    assert_eq!(merged.adapters[0], original.adapters[0], "saved DNS is never overwritten");
    assert_eq!(merged.adapters[1], fresh.adapters[1], "a fresh adapter keeps its original DNS");
    assert_eq!(merge_snapshot(None, fresh.clone()), fresh);
}

#[test]
fn restore_proof_requires_exact_saved_values() {
    let snapshot = DnsSnapshot {
        version: SNAPSHOT_VERSION,
        taken_at: 1,
        adapters: vec![adapter("{A}", Some("1.1.1.1")), adapter("{B}", None)],
    };
    let restored = vec![adapter("{A}", Some("1.1.1.1")), adapter("{B}", None)];
    assert!(restore_is_proven(&snapshot, &restored, Some(false)));

    let still_loopback = vec![adapter("{A}", Some(LOOPBACK_V4)), adapter("{B}", None)];
    assert!(!restore_is_proven(&snapshot, &still_loopback, Some(true)));

    let wrong_server = vec![adapter("{A}", Some("8.8.8.8")), adapter("{B}", None)];
    assert!(!restore_is_proven(&snapshot, &wrong_server, Some(false)));

    let missing_adapter = vec![adapter("{A}", Some("1.1.1.1"))];
    assert!(restore_is_proven(&snapshot, &missing_adapter, Some(false)));
}

#[test]
fn restore_proof_needs_positive_live_evidence() {
    let snapshot = DnsSnapshot {
        version: SNAPSHOT_VERSION,
        taken_at: 1,
        adapters: vec![adapter("{A}", Some("1.1.1.1"))],
    };
    let restored = vec![adapter("{A}", Some("1.1.1.1"))];
    assert!(restore_is_proven(&snapshot, &restored, Some(false)));
    assert!(!restore_is_proven(&snapshot, &restored, Some(true)));
    assert!(!restore_is_proven(&snapshot, &restored, None));
}

#[test]
fn the_live_loopback_read_skips_adapters_whose_originals_were_loopback() {
    let snapshot = DnsSnapshot {
        version: SNAPSHOT_VERSION,
        taken_at: 1,
        adapters: vec![
            adapter("{LOCAL-RESOLVER}", Some(LOOPBACK_V4)),
            adapter("{NORMAL}", Some("1.1.1.1")),
        ],
    };
    let current = vec![
        adapter("{LOCAL-RESOLVER}", Some(LOOPBACK_V4)),
        adapter("{NORMAL}", Some("1.1.1.1")),
    ];
    let owing = adapters_owing_live_proof(&snapshot, &current);
    assert_eq!(owing.len(), 1);
    assert_eq!(owing[0].interface_guid, "{NORMAL}");

    let with_new = vec![adapter("{NEW}", Some(LOOPBACK_V4))];
    assert_eq!(adapters_owing_live_proof(&snapshot, &with_new).len(), 1);
}

#[test]
fn live_restore_uses_profile_overrides_and_keeps_the_families_apart() {
    let saved = AdapterDnsSnapshot {
        interface_guid: "{DUAL}".to_owned(),
        ipv4_name_server: Some("1.1.1.1".to_owned()),
        ipv4_profile_name_server: Some("8.8.8.8, 8.8.4.4".to_owned()),
        ipv6_name_server: Some("2606:4700:4700::1111".to_owned()),
        ipv6_profile_name_server: None,
        live_apply_failed: false,
    };
    assert_eq!(
        restored_live_servers_v4(&saved),
        Some(vec!["8.8.8.8".to_owned(), "8.8.4.4".to_owned()])
    );
    assert_eq!(
        restored_live_servers_v6(&saved),
        Some(vec!["2606:4700:4700::1111".to_owned()])
    );

    let dhcp = AdapterDnsSnapshot {
        interface_guid: "{DHCP}".to_owned(),
        ..Default::default()
    };
    assert_eq!(restored_live_servers_v4(&dhcp), None);
    assert_eq!(restored_live_servers_v6(&dhcp), None);

    let v4_only = AdapterDnsSnapshot {
        interface_guid: "{V4}".to_owned(),
        ipv4_name_server: Some("1.1.1.1".to_owned()),
        ..Default::default()
    };
    assert_eq!(restored_live_servers_v4(&v4_only), Some(vec!["1.1.1.1".to_owned()]));
    assert_eq!(restored_live_servers_v6(&v4_only), None);
}

#[test]
fn restore_proof_covers_v6_only_adapters() {
    let v6_only = AdapterDnsSnapshot {
        interface_guid: "{V6}".to_owned(),
        ipv6_name_server: Some("2606:4700:4700::1111".to_owned()),
        ..Default::default()
    };
    let snapshot = DnsSnapshot {
        version: SNAPSHOT_VERSION,
        taken_at: 1,
        adapters: vec![v6_only.clone()],
    };
    assert!(restore_is_proven(&snapshot, &vec![v6_only.clone()], Some(false)));

    let wrong_v6 = AdapterDnsSnapshot {
        ipv6_name_server: Some("2001:db8::53".to_owned()),
        ..v6_only.clone()
    };
    assert!(!restore_is_proven(&snapshot, &vec![wrong_v6], Some(false)));

    let still_protected = AdapterDnsSnapshot {
        ipv6_name_server: Some(NO_NAME_SERVERS.to_owned()),
        ..v6_only.clone()
    };
    assert!(!restore_is_proven(&snapshot, &vec![still_protected], Some(false)));

    let left_on_loopback_by_an_older_build = AdapterDnsSnapshot {
        ipv6_name_server: Some(LOOPBACK_V6.to_owned()),
        ..v6_only
    };
    assert!(!restore_is_proven(
        &snapshot,
        &vec![left_on_loopback_by_an_older_build],
        Some(true)
    ));
}

#[test]
fn restore_proof_ignores_adapters_added_after_the_snapshot() {
    let snapshot = DnsSnapshot {
        version: SNAPSHOT_VERSION,
        taken_at: 1,
        adapters: vec![adapter("{A}", Some("1.1.1.1"))],
    };
    let current = vec![adapter("{A}", Some("1.1.1.1")), adapter("{NEW}", Some("8.8.8.8"))];
    assert!(restore_is_proven(&snapshot, &current, Some(false)));
}

#[test]
fn a_live_apply_failure_no_longer_vetoes_a_restore_the_live_state_confirms() {
    let mut flagged = adapter("{A}", Some("1.1.1.1"));
    flagged.live_apply_failed = true;
    let snapshot = DnsSnapshot {
        version: SNAPSHOT_VERSION,
        taken_at: 1,
        adapters: vec![flagged],
    };
    let current = vec![adapter("{A}", Some("1.1.1.1"))];
    assert!(restore_is_proven(&snapshot, &current, Some(false)));
    assert!(!restore_is_proven(&snapshot, &current, Some(true)));
    assert!(!restore_is_proven(&snapshot, &current, None));

    let clean = DnsSnapshot {
        version: SNAPSHOT_VERSION,
        taken_at: 1,
        adapters: vec![adapter("{A}", Some("1.1.1.1"))],
    };
    let merged = with_live_failures(&clean, &vec!["{A}".to_owned()]);
    assert!(merged.adapters[0].live_apply_failed);
    assert!(restore_is_proven(&merged, &current, Some(false)));
    assert!(!restore_is_proven(&merged, &current, Some(true)));
}

#[test]
fn enable_replays_loopback_only_when_protection_drifted() {
    assert!(needs_loopback_replay(false, false, false));
    assert!(!needs_loopback_replay(true, true, false));
    assert!(needs_loopback_replay(true, false, false));
    assert!(needs_loopback_replay(true, true, true));
    assert!(needs_loopback_replay(false, false, true));
}

#[test]
fn registry_match_ignores_the_live_apply_flag() {
    let mut saved = adapter("{A}", Some("1.1.1.1"));
    saved.live_apply_failed = true;
    let current = adapter("{A}", Some("1.1.1.1"));
    assert!(registry_values_match(&saved, &current));
    let drifted = adapter("{A}", Some("8.8.8.8"));
    assert!(!registry_values_match(&saved, &drifted));
}

#[test]
fn the_degraded_restore_exit_needs_a_streak_and_an_exact_registry_match() {
    assert!(!accepts_degraded_restore(0, true));
    for streak in 1..DEGRADED_RESTORE_STREAK {
        assert!(!accepts_degraded_restore(streak, true), "streak {streak}");
    }
    assert!(accepts_degraded_restore(DEGRADED_RESTORE_STREAK, true));
    assert!(!accepts_degraded_restore(DEGRADED_RESTORE_STREAK + 10, false));
}

#[test]
fn restoration_without_a_snapshot_needs_positive_evidence() {
    assert!(restore_established_without_snapshot(false, false));
    assert!(!restore_established_without_snapshot(true, false));
    assert!(!restore_established_without_snapshot(false, true));
    assert!(!restore_established_without_snapshot(true, true));
}

#[test]
fn reconciliation_backs_off_and_then_suspends() {
    assert_eq!(reconcile_backoff(0), Some(0));
    assert_eq!(reconcile_backoff(1), Some(DNS_WATCHDOG_INTERVAL_MS));
    assert_eq!(reconcile_backoff(2), Some(DNS_WATCHDOG_INTERVAL_MS * 2));
    assert!(reconcile_backoff(DNS_RECONCILE_MAX_FAILURES - 1) <= Some(DNS_RECONCILE_MAX_BACKOFF_MS));
    assert_eq!(reconcile_backoff(DNS_RECONCILE_MAX_FAILURES), None);
    assert_eq!(reconcile_backoff(DNS_RECONCILE_MAX_FAILURES + 100), None);
}

#[test]
fn backoff_doubles_exactly() {
    assert_eq!(reconcile_backoff(3), Some(8_000));
    assert_eq!(reconcile_backoff(4), Some(16_000));
}

#[test]
fn merging_the_same_fresh_read_twice_changes_nothing() {
    let original = DnsSnapshot {
        version: SNAPSHOT_VERSION,
        taken_at: 1,
        adapters: vec![adapter("{A}", Some("1.1.1.1"))],
    };
    let fresh = DnsSnapshot {
        version: SNAPSHOT_VERSION,
        taken_at: 5,
        adapters: vec![adapter("{B}", Some("9.9.9.9")), adapter("{A}", Some(LOOPBACK_V4))],
    };
    let once = merge_snapshot(Some(original), fresh.clone());
    let twice = merge_snapshot(Some(once.clone()), fresh);
    assert_eq!(once, twice);
    assert_eq!(once.adapters.len(), 2);
}

#[test]
fn a_snapshot_from_a_newer_build_is_named_unreadable() {
    let current = DnsSnapshot { version: SNAPSHOT_VERSION, taken_at: 1, adapters: vec![] };
    assert_eq!(check_snapshot_version(current.clone()), Ok(current));
    let newer = DnsSnapshot { version: SNAPSHOT_VERSION + 1, taken_at: 1, adapters: vec![] };
    assert_eq!(
        check_snapshot_version(newer),
        Err("the file was written by a newer build (version 2, this build understands up to 1)"
            .to_owned())
    );
}

#[test]
fn the_failure_streak_counts_failing_rounds_and_resets_on_a_clean_one() {
    let mut streak = LiveFailureStreak::new();
    assert_eq!(streak.note_apply_round(true), 1);
    assert_eq!(streak.note_apply_round(true), 2);
    assert_eq!(streak.note_apply_round(false), 0, "a round returns the current streak");
    assert_eq!(streak.consecutive, 0);
    assert_eq!(streak.note_apply_round(true), 1);
}

#[test]
fn an_unreadable_snapshot_is_named_rather_than_thrown() {
    let good = DnsSnapshot { version: SNAPSHOT_VERSION, taken_at: 1, adapters: vec![adapter("{A}", Some("1.1.1.1"))] };
    assert!(check_snapshot_version(good).is_ok());
    let corrupt = tono_service::dns_restore::corrupt_snapshot_reason("key must be a string at line 1 column 2");
    assert!(corrupt.contains("corrupt"), "{corrupt}");
    let newer = DnsSnapshot { version: SNAPSHOT_VERSION + 1, taken_at: 1, adapters: vec![] };
    let reason = check_snapshot_version(newer).expect_err("a newer schema is unreadable");
    assert!(reason.contains("newer build"), "{reason}");
}

#[test]
fn the_restore_proof_ignores_live_apply_flags_and_unknown_adapters() {
    let snapshot = DnsSnapshot { version: SNAPSHOT_VERSION, taken_at: 1, adapters: vec![adapter("{A}", Some("1.1.1.1"))] };
    let current = vec![adapter("{A}", Some("1.1.1.1"))];
    assert!(restore_is_proven(&snapshot, &current, Some(false)));
    let mut flagged_snapshot = snapshot.clone();
    flagged_snapshot.adapters[0].live_apply_failed = true;
    let mut flagged_current = current.clone();
    flagged_current[0].live_apply_failed = true;
    flagged_current.insert(0, adapter("{Z}", Some(LOOPBACK_V4)));
    flagged_current.push(adapter("{Y}", None));
    assert!(restore_is_proven(&flagged_snapshot, &flagged_current, Some(false)));
    let wrong = vec![adapter("{Z}", None), adapter("{A}", Some("9.9.9.9"))];
    assert!(!restore_is_proven(&flagged_snapshot, &wrong, Some(false)));
}

#[test]
fn an_unknown_adapter_between_known_ones_changes_nothing() {
    let snapshot = DnsSnapshot {
        version: SNAPSHOT_VERSION,
        taken_at: 1,
        adapters: vec![adapter("{A}", Some("1.1.1.1")), adapter("{B}", None)],
    };
    let current = vec![adapter("{A}", Some("1.1.1.1")), adapter("{B}", None)];
    let widened = vec![adapter("{A}", Some("1.1.1.1")), adapter("{Z}", Some(LOOPBACK_V4)), adapter("{B}", None)];
    assert_eq!(
        restore_is_proven(&snapshot, &current, Some(false)),
        restore_is_proven(&snapshot, &widened, Some(false))
    );
    assert!(restore_is_proven(&snapshot, &widened, Some(false)));
}
