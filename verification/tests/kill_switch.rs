use tono_service::dns_restore::{corrupt_snapshot_reason, disarm_gate, GateAction, SnapshotFile};
use tono_service::ip::parse_ip;
use tono_service::kill_switch::{
    api_host_ips, api_host_plan, check_arm_request, emergency_dns_failure, emergency_tombstone,
    intent_is_valid, lock_mismatch_message, rule_config, validate_config, ApiHost, Armed,
    DisarmStep, IntentRead, IntentRecord, KillSwitch, RetireAction, ServiceErrorCode,
    StartAction, StopAction,
};
use tono_service::structure::{KillSwitchConfig, KillSwitchStatusMode, ProxyEndpoint, ProxyProtocol};

fn test_config() -> KillSwitchConfig {
    KillSwitchConfig {
        tunnel_interface: "Tono".to_owned(),
        proxy_endpoints: vec![ProxyEndpoint { ip: "8.8.8.8".to_owned(), port: 443, protocol: ProxyProtocol::Tcp }],
        bootstrap_api_hosts: vec!["1.1.1.1".to_owned()],
        direct_endpoints: Vec::new(),
    }
}

fn test_config_with_direct() -> KillSwitchConfig {
    KillSwitchConfig {
        direct_endpoints: vec![
            ProxyEndpoint { ip: "203.0.113.9".to_owned(), port: 443, protocol: ProxyProtocol::Tcp },
            ProxyEndpoint { ip: "203.0.113.10".to_owned(), port: 8000, protocol: ProxyProtocol::Udp },
        ],
        ..test_config()
    }
}

fn valid_intent(mode: KillSwitchStatusMode, wanted: bool) -> IntentRecord {
    IntentRecord {
        wanted,
        mode,
        verified: Some(true),
        tunnel_interface: "Tono".to_owned(),
        app_path: "/opt/tono/mihomo".to_owned(),
        endpoints: test_config().proxy_endpoints,
        api_host_ips: vec!["1.1.1.1".to_owned()],
        updated_at: 1,
        owner_key: None,
    }
}

/// The arm transaction as the service runs it: validate, resolve (literals only here),
/// persist, commit, install.
fn arm(ks: &mut KillSwitch, config: &KillSwitchConfig, owner: &str) -> Result<(), String> {
    check_arm_request(config, "/opt/tono/mihomo", owner)?;
    let plan = api_host_plan(&config.bootstrap_api_hosts);
    let resolved = vec![Vec::new(); plan.len()];
    let ips = api_host_ips(&plan, &resolved);
    let armed = ks.bootstrap_armed(config, "/opt/tono/mihomo", owner, &ips, 10);
    ks.commit(armed);
    ks.record_outcome(Ok(()));
    Ok(())
}

fn lock(ks: &mut KillSwitch, supplied: Option<&str>) -> Result<(), String> {
    ks.lock_target(supplied)?;
    let locked = ks.locked(0, 11).expect("armed");
    ks.commit_lock(locked);
    Ok(())
}

fn mark_verified(ks: &mut KillSwitch, owner: &str) -> Result<(), String> {
    if let Some(next) = ks.mark_verified(owner, 12)? {
        ks.commit(next);
    }
    Ok(())
}

fn restrict(ks: &mut KillSwitch) -> Result<(), String> {
    let next = ks.restricted(13)?;
    ks.commit(next);
    ks.record_outcome(Ok(()));
    Ok(())
}

/// A release with the DNS restore's outcome given; filter and intent removal succeed.
fn release(ks: &mut KillSwitch, dns_restored: bool) -> DisarmStep {
    let mut step = ks.disarm_start();
    if step == DisarmStep::SweepResiduals {
        return step;
    }
    loop {
        let ok = match step {
            DisarmStep::RestoreDns => dns_restored,
            DisarmStep::RemoveFilters | DisarmStep::RemoveIntent => true,
            other => return other,
        };
        step = ks.disarm_next(step, ok);
    }
}

#[test]
fn legacy_verification_migration_depends_on_mode() {
    for (mode, expected) in [
        (KillSwitchStatusMode::Locked, true),
        (KillSwitchStatusMode::Blocked, false),
        (KillSwitchStatusMode::Bootstrap, false),
    ] {
        let mut intent = valid_intent(mode, true);
        intent.verified = None;
        assert_eq!(intent.is_verified(), expected, "{mode:?}");
    }
}

#[test]
fn arm_inherits_verification_only_for_same_owner() {
    let mut ks = KillSwitch::new();
    arm(&mut ks, &test_config(), "owner-alice").unwrap();
    lock(&mut ks, None).unwrap();
    mark_verified(&mut ks, "owner-alice").unwrap();
    arm(&mut ks, &test_config(), "owner-alice").unwrap();
    assert!(ks.armed.as_ref().unwrap().intent.is_verified());
    arm(&mut ks, &test_config(), "owner-bob").unwrap();
    assert!(!ks.armed.as_ref().unwrap().intent.is_verified());
}

#[test]
fn mark_verified_requires_locked_matching_owner_and_is_idempotent() {
    let mut ks = KillSwitch::new();
    assert_eq!(ks.mark_verified("owner-alice", 1), Err("kill switch is not armed".to_owned()));
    arm(&mut ks, &test_config(), "owner-alice").unwrap();
    assert_eq!(
        mark_verified(&mut ks, "owner-alice"),
        Err("kill switch must be locked before verification".to_owned())
    );
    lock(&mut ks, None).unwrap();
    assert_eq!(
        mark_verified(&mut ks, "owner-bob"),
        Err("kill switch belongs to a different owner".to_owned())
    );
    mark_verified(&mut ks, "owner-alice").unwrap();
    assert_eq!(ks.mark_verified("owner-alice", 99), Ok(None));
    assert!(ks.armed.as_ref().unwrap().intent.is_verified());
}

#[test]
fn restore_with_valid_wanted_intent_rearms_and_downgrades_locked() {
    let mut ks = KillSwitch::new();
    let action = ks.restore_on_service_start(IntentRead::Parsed(valid_intent(KillSwitchStatusMode::Locked, true)), 5);
    assert_eq!(action, StartAction::PersistAndInstall);
    let armed = ks.armed.clone().expect("must be re-armed");
    assert_eq!(armed.intent.mode, KillSwitchStatusMode::Blocked);
    assert!(armed.tun_luid.is_none());
    assert_eq!(armed.intent.verified, Some(true));
    assert_eq!(armed.intent.updated_at, 5);
    assert!(ks.status(false).wanted);
    assert!(ks.restore_was_locked);
}

#[test]
fn legacy_locked_migration_stays_verified_across_a_second_restart() {
    let mut ks = KillSwitch::new();
    let mut legacy = valid_intent(KillSwitchStatusMode::Locked, true);
    legacy.verified = None;
    ks.restore_on_service_start(IntentRead::Parsed(legacy), 5);
    let persisted = ks.armed.clone().unwrap().intent;
    let mut again = KillSwitch::new();
    again.restore_on_service_start(IntentRead::Parsed(persisted), 6);
    let armed = again.armed.expect("must remain fail-closed");
    assert!(armed.intent.is_verified());
    assert_eq!(armed.intent.mode, KillSwitchStatusMode::Blocked);
}

#[test]
fn unverified_startup_intent_stays_blocked_until_core_and_dns_reconcile() {
    let mut ks = KillSwitch::new();
    let mut intent = valid_intent(KillSwitchStatusMode::Locked, true);
    intent.verified = Some(false);
    intent.owner_key = Some("owner-alice".to_owned());
    assert_eq!(ks.restore_on_service_start(IntentRead::Parsed(intent), 7), StartAction::PersistAndInstall);
    assert_eq!(ks.armed.as_ref().unwrap().intent.mode, KillSwitchStatusMode::Blocked);
    assert!(!ks.restore_was_locked);
    assert_eq!(
        ks.retire_unverified_on_service_start(),
        RetireAction::RetireOwner(Some("owner-alice".to_owned()))
    );
    assert_eq!(release(&mut ks, false), DisarmStep::Refused);
    ks.note_retire_failure("DNS restore could not be proven");
    assert!(ks.armed.is_some());
    assert_eq!(
        ks.last_error,
        Some("stale unverified session remains fail-closed: DNS restore could not be proven".to_owned())
    );
    assert_eq!(release(&mut ks, true), DisarmStep::Done);
    assert!(ks.armed.is_none());
}

#[test]
fn verified_startup_intent_is_never_retired_by_initial_attempt_cleanup() {
    let mut ks = KillSwitch::new();
    ks.restore_on_service_start(IntentRead::Parsed(valid_intent(KillSwitchStatusMode::Locked, true)), 1);
    assert_eq!(ks.retire_unverified_on_service_start(), RetireAction::Nothing);
    assert!(ks.armed.is_some());
}

#[test]
fn restore_with_unwanted_intent_cleans_residual_state() {
    let mut ks = KillSwitch::new();
    let action = ks.restore_on_service_start(IntentRead::Parsed(valid_intent(KillSwitchStatusMode::Blocked, false)), 1);
    assert_eq!(action, StartAction::Cleanup);
    assert!(ks.armed.is_none());
    assert!(!ks.status(false).wanted);
}

#[test]
fn restore_with_corrupt_intent_arms_emergency_block_and_keeps_evidence() {
    let mut ks = KillSwitch::new();
    assert_eq!(ks.restore_on_service_start(IntentRead::Corrupt, 3), StartAction::InstallCorruptBlock);
    let armed = ks.armed.clone().expect("corrupt = armed");
    assert_eq!(armed.intent.mode, KillSwitchStatusMode::Blocked);
    assert!(armed.intent.endpoints.is_empty());
    assert!(armed.intent.owner_key.is_none());
    assert!(ks.status(false).wanted);
}

#[test]
fn restore_with_missing_intent_is_a_noop() {
    let mut ks = KillSwitch::new();
    assert_eq!(ks.restore_on_service_start(IntentRead::Missing { residual: false }, 1), StartAction::SweepDns);
    assert!(ks.armed.is_none());
    assert!(!ks.status(false).wanted);
    assert_eq!(ks.restore_on_service_start(IntentRead::Missing { residual: true }, 1), StartAction::InstallResidualBlock);
    assert!(ks.status(false).wanted);
}

#[test]
fn transition_after_stop_without_release_restricts_to_bootstrap() {
    let mut ks = KillSwitch::new();
    assert_eq!(ks.after_stop(false), StopAction::Nothing);
    arm(&mut ks, &test_config(), "owner-alice").unwrap();
    assert_eq!(ks.after_stop(true), StopAction::Disarm);
    assert_eq!(ks.after_stop(false), StopAction::Restrict);
    restrict(&mut ks).unwrap();
    let armed = ks.armed.clone().expect("must stay armed");
    assert_eq!(armed.intent.mode, KillSwitchStatusMode::Blocked);
    assert!(armed.tun_luid.is_none());
}

#[test]
fn disarm_is_refused_until_dns_restore_is_proven() {
    let mut ks = KillSwitch::new();
    arm(&mut ks, &test_config(), "owner-alice").unwrap();
    // An unreadable DNS snapshot leaves the restore unprovable: the disarm is refused and
    // the block stays armed.
    let corrupt = SnapshotFile::Unreadable(corrupt_snapshot_reason("key must be a string at line 1 column 3"));
    let error = match disarm_gate(&corrupt) {
        GateAction::Refuse(message) => message,
        other => panic!("disarm must be refused while DNS restore is unproven: {other:?}"),
    };
    assert!(error.contains("corrupt"), "{error}");
    assert_eq!(release(&mut ks, false), DisarmStep::Refused);
    assert!(ks.armed.is_some(), "a refused disarm keeps the block armed");
    // With the snapshot gone there is nothing left to restore, so the same release succeeds.
    assert_eq!(disarm_gate(&SnapshotFile::Absent), GateAction::Open);
    assert_eq!(release(&mut ks, true), DisarmStep::Done);
    assert!(ks.armed.is_none());
    assert!(!ks.status(false).wanted);
}

#[test]
fn a_failed_filter_removal_reinstalls_and_keeps_the_session() {
    let mut ks = KillSwitch::new();
    arm(&mut ks, &test_config(), "owner-alice").unwrap();
    let step = ks.disarm_next(DisarmStep::RestoreDns, true);
    assert_eq!(step, DisarmStep::RemoveFilters);
    assert_eq!(ks.disarm_next(step, false), DisarmStep::ReinstallAfterFilterFailure);
    assert!(ks.armed.is_some());
    assert_eq!(ks.disarm_next(DisarmStep::RemoveIntent, false), DisarmStep::ReinstallAfterIntentFailure);
    assert!(ks.armed.is_some());
}

#[test]
fn release_when_not_armed_still_attempts_dns_restore_best_effort() {
    let mut ks = KillSwitch::new();
    assert_eq!(release(&mut ks, false), DisarmStep::SweepResiduals);
    ks.note_leftover_dns(Err("the file is corrupt".to_owned()));
    let status = ks.status(false);
    assert!(!status.wanted);
    assert_eq!(
        status.last_error,
        Some("leftover DNS snapshot could not be restored: the file is corrupt".to_owned())
    );
}

#[test]
fn write_authorization_follows_the_recorded_owner() {
    let mut ks = KillSwitch::new();
    assert_eq!(ks.authorize_write_for("owner-alice"), Ok(()));
    arm(&mut ks, &test_config(), "owner-alice").unwrap();
    assert_eq!(ks.authorize_write_for("owner-alice"), Ok(()));
    assert_eq!(ks.authorize_write_for("owner-bob"), Err(ServiceErrorCode::NotActive));
    assert_eq!(ks.armed.as_ref().unwrap().intent.owner_key.as_deref(), Some("owner-alice"));
    ks.commit(Armed { intent: valid_intent(KillSwitchStatusMode::Blocked, true), tun_luid: None, direct_endpoints: Vec::new() });
    assert_eq!(ks.authorize_write_for("owner-bob"), Ok(()));
}

#[test]
fn lock_rejects_an_interface_that_was_not_recorded_at_arm_time() {
    let mut ks = KillSwitch::new();
    arm(&mut ks, &test_config(), "owner-alice").unwrap();
    let error = lock(&mut ks, Some("Ethernet")).expect_err("locking a physical adapter must be refused");
    assert_eq!(
        error,
        "lock interface \"Ethernet\" does not match the interface recorded at arm time \"Tono\""
    );
    let armed = ks.armed.clone().expect("still armed");
    assert_eq!(armed.intent.mode, KillSwitchStatusMode::Bootstrap);
    assert!(armed.tun_luid.is_none());
    lock(&mut ks, Some(" Tono ")).unwrap();
    let armed = ks.armed.clone().expect("still armed");
    assert_eq!(armed.intent.mode, KillSwitchStatusMode::Locked);
    assert_eq!(armed.tun_luid, Some(0));
}

#[test]
fn restored_locked_intent_relocks_after_core_restore() {
    let mut ks = KillSwitch::new();
    ks.restore_on_service_start(IntentRead::Parsed(valid_intent(KillSwitchStatusMode::Locked, true)), 1);
    assert_eq!(ks.armed.as_ref().unwrap().intent.mode, KillSwitchStatusMode::Blocked);
    assert!(ks.relock_restored_tunnel());
    lock(&mut ks, None).unwrap();
    assert_eq!(ks.armed.as_ref().unwrap().intent.mode, KillSwitchStatusMode::Locked);
    restrict(&mut ks).unwrap();
    assert!(!ks.relock_restored_tunnel(), "the marker is consumed");
    assert_eq!(ks.armed.as_ref().unwrap().intent.mode, KillSwitchStatusMode::Blocked);
    assert_eq!(
        ks.note_relock_failure("tunnel missing"),
        "restored core could not be re-locked: tunnel missing"
    );
}

#[test]
fn direct_endpoints_are_validated_against_the_wechat_contract() {
    let base = test_config();
    for (port, protocol, message) in [
        (22_u16, ProxyProtocol::Tcp, "direct endpoint 203.0.113.9:22/Tcp is not an approved WeChat port"),
        (53, ProxyProtocol::Udp, "direct endpoint 203.0.113.9:53/Udp is not an approved WeChat port"),
    ] {
        let mut config = base.clone();
        config.direct_endpoints = vec![ProxyEndpoint { ip: "203.0.113.9".to_owned(), port, protocol }];
        assert_eq!(validate_config(&config), Err(message.to_owned()));
    }
    for (ip, message) in [
        ("1.1.1.1", "direct endpoint 1.1.1.1 is a permanently protected resolver"),
        ("8.8.8.8", "direct endpoint 8.8.8.8 is a permanently protected resolver"),
        ("10.0.0.9", "invalid direct endpoint 10.0.0.9:443"),
    ] {
        let mut config = base.clone();
        config.direct_endpoints = vec![ProxyEndpoint { ip: ip.to_owned(), port: 443, protocol: ProxyProtocol::Tcp }];
        assert_eq!(validate_config(&config), Err(message.to_owned()));
    }
    let mut config = base.clone();
    config.proxy_endpoints = vec![ProxyEndpoint { ip: "9.9.9.9".to_owned(), port: 443, protocol: ProxyProtocol::Tcp }];
    config.direct_endpoints = vec![ProxyEndpoint { ip: "9.9.9.9".to_owned(), port: 443, protocol: ProxyProtocol::Tcp }];
    assert_eq!(
        validate_config(&config),
        Err("direct endpoint 9.9.9.9 duplicates a selected node address".to_owned())
    );
    let mut config = base.clone();
    config.direct_endpoints = (0..257_u32)
        .map(|index| ProxyEndpoint {
            ip: format!("203.0.{}.{}", 113 + index / 256, index % 256),
            port: 443,
            protocol: ProxyProtocol::Tcp,
        })
        .collect();
    assert_eq!(validate_config(&config), Err("direct_endpoints exceeds the 256-entry bound".to_owned()));
    assert_eq!(validate_config(&test_config_with_direct()), Ok(()));
}

#[test]
fn arm_requests_are_refused_in_order() {
    let mut config = test_config();
    config.tunnel_interface = "  ".to_owned();
    assert_eq!(validate_config(&config), Err("enabled kill switch requires tunnel_interface".to_owned()));
    config.tunnel_interface = "x".repeat(65);
    assert_eq!(validate_config(&config), Err("tunnel_interface is not a plausible interface alias".to_owned()));
    config.tunnel_interface = "Tono".to_owned();
    config.proxy_endpoints = vec![];
    assert_eq!(validate_config(&config), Err("enabled kill switch requires at least one proxy endpoint".to_owned()));
    config.proxy_endpoints = vec![ProxyEndpoint { ip: "10.1.1.1".to_owned(), port: 443, protocol: ProxyProtocol::Tcp }];
    assert_eq!(validate_config(&config), Err("invalid proxy endpoint 10.1.1.1:443".to_owned()));
    assert_eq!(
        check_arm_request(&test_config(), " ", "owner"),
        Err("enabled kill switch requires the staged core path".to_owned())
    );
    assert_eq!(
        check_arm_request(&test_config(), "/core", ""),
        Err("enabled kill switch requires the authenticated owner key".to_owned())
    );
}

#[test]
fn direct_endpoints_live_only_in_the_armed_session_memory() {
    let mut ks = KillSwitch::new();
    arm(&mut ks, &test_config_with_direct(), "owner-alice").unwrap();
    assert_eq!(ks.armed.as_ref().unwrap().direct_endpoints.len(), 2);
    lock(&mut ks, None).unwrap();
    mark_verified(&mut ks, "owner-alice").unwrap();
    restrict(&mut ks).unwrap();
    assert_eq!(ks.armed.as_ref().unwrap().direct_endpoints.len(), 2);
    let persisted = ks.armed.clone().unwrap().intent;
    ks.restore_on_service_start(IntentRead::Parsed(persisted), 20);
    assert!(ks.armed.as_ref().unwrap().direct_endpoints.is_empty());
    assert_eq!(release(&mut ks, true), DisarmStep::Done);
    arm(&mut ks, &test_config(), "owner-alice").unwrap();
    assert!(ks.armed.as_ref().unwrap().direct_endpoints.is_empty());
}

#[test]
fn api_hosts_are_trimmed_literals_or_lookups_and_sanitized() {
    let hosts = vec![" 1.1.1.1 ".to_owned(), "".to_owned(), "api.example.com".to_owned(), "10.0.0.1".to_owned()];
    let plan = api_host_plan(&hosts);
    assert_eq!(
        plan,
        vec![
            ApiHost::Literal(parse_ip("1.1.1.1").unwrap()),
            ApiHost::Lookup("api.example.com".to_owned()),
            ApiHost::Literal(parse_ip("10.0.0.1").unwrap()),
        ]
    );
    let resolved = vec![vec![], vec![parse_ip("203.0.113.5").unwrap(), parse_ip("1.1.1.1").unwrap()], vec![]];
    let ips = api_host_ips(&plan, &resolved);
    assert_eq!(ips, vec![parse_ip("1.1.1.1").unwrap(), parse_ip("203.0.113.5").unwrap()]);
    let many: Vec<String> = (0..20).map(|index| format!("8.8.8.{index}")).collect();
    assert_eq!(api_host_plan(&many).len(), 16);
}

#[test]
fn the_rule_config_parses_the_recorded_api_addresses() {
    let armed = Armed {
        intent: IntentRecord {
            api_host_ips: vec!["1.1.1.1".to_owned(), "garbage".to_owned()],
            ..valid_intent(KillSwitchStatusMode::Blocked, true)
        },
        tun_luid: Some(4),
        direct_endpoints: vec![],
    };
    let config = rule_config(&armed);
    assert_eq!(config.api_host_ips, vec![parse_ip("1.1.1.1").unwrap()]);
    assert_eq!(config.tun_luid, Some(4));
    assert_eq!(config.mode, KillSwitchStatusMode::Blocked);
    assert!(intent_is_valid(&armed.intent));
    let mut invalid = armed.intent.clone();
    invalid.endpoints.push(ProxyEndpoint { ip: "127.0.0.1".to_owned(), port: 1, protocol: ProxyProtocol::Tcp });
    assert!(!intent_is_valid(&invalid));
}

#[test]
fn emergency_disarm_removes_wfp_intent_but_reports_unrestored_dns() {
    let tombstone = emergency_tombstone(Some(valid_intent(KillSwitchStatusMode::Locked, true)), 50);
    assert!(!tombstone.wanted);
    assert_eq!(tombstone.updated_at, 50);
    assert_eq!(tombstone.mode, KillSwitchStatusMode::Locked);
    let fresh = emergency_tombstone(None, 51);
    assert_eq!(fresh.verified, Some(false));
    assert!(fresh.endpoints.is_empty());
    let message = emergency_dns_failure("corrupt", "\"C:\\\\ProgramData\\\\Tono\\\\protected-dns.json\"");
    assert!(message.contains("WFP was removed"), "{message}");
    assert!(message.contains("protected-dns.json"), "{message}");
    let mut ks = KillSwitch::new();
    arm(&mut ks, &test_config(), "owner-alice").unwrap();
    ks.emergency_cleared();
    assert!(ks.armed.is_none());
}

#[test]
fn lock_mismatch_wording_embeds_both_renderings() {
    assert_eq!(
        lock_mismatch_message("\"a\"", "\"b\""),
        "lock interface \"a\" does not match the interface recorded at arm time \"b\""
    );
}

#[test]
fn a_verify_is_trusted_for_a_short_while_only() {
    assert!(tono_service::kill_switch::verify_is_fresh(Some((1_000, true)), 2_499));
    assert!(!tono_service::kill_switch::verify_is_fresh(Some((1_000, true)), 2_500));
    assert!(!tono_service::kill_switch::verify_is_fresh(Some((1_000, false)), 1_000));
    assert!(!tono_service::kill_switch::verify_is_fresh(None, 0));
}

#[test]
fn legacy_unowned_unverified_cleanup_cannot_resurrect_desired_core() {
    let mut ks = KillSwitch::new();
    let mut intent = valid_intent(KillSwitchStatusMode::Blocked, true);
    intent.verified = Some(false);
    intent.owner_key = None;
    ks.restore_on_service_start(IntentRead::Parsed(intent), 1);
    assert_eq!(ks.retire_unverified_on_service_start(), RetireAction::RetireOwner(None));
    assert_eq!(release(&mut ks, true), DisarmStep::Done);
    assert!(ks.armed.is_none());
}

#[test]
fn disarm_succeeds_after_a_proven_dns_restore() {
    let mut ks = KillSwitch::new();
    arm(&mut ks, &test_config(), "owner-alice").unwrap();
    assert_eq!(release(&mut ks, true), DisarmStep::Done);
    assert!(ks.armed.is_none());
    assert_eq!(ks.last_error, None);
}

#[test]
fn release_when_armed_disarms_and_reports_status() {
    let mut ks = KillSwitch::new();
    arm(&mut ks, &test_config(), "owner-alice").unwrap();
    assert!(ks.status(false).wanted);
    assert_eq!(release(&mut ks, true), DisarmStep::Done);
    assert!(!ks.status(false).wanted, "released status reports wanted=false");
}

#[test]
fn release_when_not_armed_is_an_idempotent_success() {
    let mut ks = KillSwitch::new();
    assert_eq!(release(&mut ks, true), DisarmStep::SweepResiduals);
    ks.note_leftover_dns(Ok(()));
    assert!(!ks.status(false).wanted);
    assert_eq!(release(&mut ks, true), DisarmStep::SweepResiduals);
    assert!(!ks.status(false).wanted);
    assert_eq!(ks.status(false).last_error, None);
}

#[test]
fn release_is_refused_until_dns_restore_is_proven() {
    let mut ks = KillSwitch::new();
    arm(&mut ks, &test_config(), "owner-alice").unwrap();
    assert_eq!(release(&mut ks, false), DisarmStep::Refused);
    assert!(ks.armed.is_some(), "a refused release keeps the block armed");
    assert_eq!(release(&mut ks, true), DisarmStep::Done);
    assert!(!ks.status(false).wanted);
}
