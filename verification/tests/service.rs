use tono_service::channel::{channel_identity, MACOS_SERVICE_ID, SERVICE_SLUG};
use tono_service::cleanup::{
    cleanup_exit_code, cleanup_next, nothing_to_clean, poll_step, recovery_state_present,
    CleanupOutcome, CleanupStep, PollAction, StepEvent, EXIT_COSMETIC_FAILURE,
    EXIT_STILL_PROTECTED,
};
use tono_service::client::{
    effective_config, is_ipc_path_exists, IpcConfig, Verb, MUTATING_REQUEST_ATTEMPTS,
    READ_REQUEST_ATTEMPTS,
};
use tono_service::lifecycle::{
    classify_launchd_service_probe, handle_control, publish_step, service_exit_code,
    stop_error_tolerated, stop_step, ControlAction, LaunchdInstallPlan, PowerEventKind,
    PublishStep, ScmState, ServiceControlKind, StopStep,
};
use tono_service::netmon::{EventLog, NetworkMonitor, MAX_RECORDED_EVENTS};
use tono_service::operation::OperationRegistry;
use tono_service::process::{
    filetime_ticks, is_zombie_state, kill_probe_means_exists, open_failure_means_alive,
    proc_start_time, proc_stat_error_message, start_micros, termination_outcome,
    termination_timeout_message, wait_means_alive, IntTextError, ProcStatError,
    TerminationOutcome,
};
use tono_service::structure::ServiceOperationKind;

#[test]
fn clean_outcome_exits_zero() {
    assert_eq!(cleanup_exit_code(&CleanupOutcome::Clean), 0);
}

#[test]
fn cosmetic_failure_is_distinct_and_never_reads_as_blocking() {
    let code = cleanup_exit_code(&CleanupOutcome::CosmeticFailure("leftover".to_owned()));
    assert_eq!(code, EXIT_COSMETIC_FAILURE);
    assert_ne!(code, 0);
    assert_ne!(code, EXIT_STILL_PROTECTED);
    assert_ne!(code, 1);
}

#[test]
fn still_protected_maps_to_the_blocking_exit_code() {
    let code = cleanup_exit_code(&CleanupOutcome::StillProtected("armed".to_owned()));
    assert_eq!(code, EXIT_STILL_PROTECTED);
    assert_ne!(code, 0);
    assert_ne!(code, 1);
}

#[test]
fn poll_until_retries_transient_state_before_success() {
    let mut attempts = 0;
    let mut pauses = 0;
    let mut result = None;
    for attempt in 0..3 {
        attempts += 1;
        match poll_step(attempt, 3, attempts == 3) {
            PollAction::Done => {
                result = Some("deleted");
                break;
            }
            PollAction::Pause => pauses += 1,
            PollAction::TimedOut => break,
        }
    }
    assert_eq!(result, Some("deleted"));
    assert_eq!(attempts, 3);
    assert_eq!(pauses, 2);
    assert_eq!(poll_step(2, 3, false), PollAction::TimedOut);
}

#[test]
fn an_unanswerable_probe_counts_as_recovery_state() {
    assert!(!recovery_state_present(Some(false), Some(false), Some(false)));
    assert!(recovery_state_present(None, Some(false), Some(false)));
    assert!(recovery_state_present(Some(false), Some(true), Some(false)));
    assert!(nothing_to_clean(false, false));
    assert!(!nothing_to_clean(true, false));
}

#[test]
fn compiled_channel_has_a_self_consistent_identity() {
    let identity = channel_identity();
    assert!(!identity.id.is_empty());
    assert!(identity.service_slug.starts_with("clash-verge-service"));
    assert!(identity.windows_service_name.starts_with("TonoService"));
    assert!(identity.windows_state_dir.starts_with("Tono"));
    assert!(identity.macos_service_id.starts_with(identity.macos_app_bundle_id));
    assert_eq!(identity.service_slug, SERVICE_SLUG);
    assert_eq!(identity.macos_service_id, MACOS_SERVICE_ID);
}

#[test]
fn only_reads_are_safe_for_automatic_transport_retry() {
    assert!(Verb::Get.is_read_only());
    assert!(!Verb::Post.is_read_only());
    assert!(!Verb::Delete.is_read_only());
    assert_eq!(Verb::Get.max_attempts(), READ_REQUEST_ATTEMPTS);
    assert_eq!(Verb::Post.max_attempts(), MUTATING_REQUEST_ATTEMPTS);
    assert_eq!(Verb::Delete.max_attempts(), MUTATING_REQUEST_ATTEMPTS);
}

#[test]
fn connection_defaults_and_per_request_attempts() {
    let default = IpcConfig::default();
    assert_eq!((default.default_timeout_ms, default.max_retries, default.retry_delay_ms), (50, 8, 150));
    let c = effective_config(None, Some(1));
    assert_eq!(c.max_retries, 1);
    assert_eq!(c.default_timeout_ms, 50);
    let installed = IpcConfig { default_timeout_ms: 5, max_retries: 3, retry_delay_ms: 7 };
    assert_eq!(effective_config(Some(installed), None), installed);
    let _ = is_ipc_path_exists();
}

#[test]
fn events_are_recorded_and_bounded() {
    let mut log = EventLog::new();
    for index in 0..(MAX_RECORDED_EVENTS + 8) {
        log.note_event(&format!("test-event-{index}"), 1_000 + index as u64);
    }
    let events = log.recent_events();
    assert_eq!(events.len(), MAX_RECORDED_EVENTS);
    assert!(events.last().unwrap().contains("test-event-"));
    assert_eq!(events.last().unwrap(), "test-event-39 @1039");
    assert_eq!(events[0], "test-event-8 @1008");
    assert!(log.change_count() >= MAX_RECORDED_EVENTS as u64);
    log.note_power_event(2_000);
    let status = log.status();
    assert_eq!(status.counter, 41);
    assert_eq!(status.last_kind, Some("power-event".to_owned()));
    assert_eq!(status.last_at, Some(2_000));
    assert_eq!(EventLog::new().status().last_at, None);
}

#[test]
fn network_notifications_are_debounced_into_one_event() {
    let mut monitor = NetworkMonitor::new();
    assert!(monitor.start());
    assert!(!monitor.start(), "registration happens once");
    assert!(!monitor.debounce_tick(10_000));
    monitor.raw_notify(1_000);
    monitor.raw_notify(1_200);
    assert!(!monitor.debounce_tick(1_900));
    assert!(monitor.debounce_tick(1_950));
    assert!(!monitor.debounce_tick(5_000));
}

#[test]
fn guard_publishes_and_clears_without_an_async_lock() {
    let mut registry = OperationRegistry::new();
    let before = registry.snapshot().0;
    let id = registry.begin(ServiceOperationKind::StartCore, 60_000, 1_000);
    let (during, active) = registry.snapshot();
    assert!(during > before);
    let active = active.expect("operation must be published while its guard is live");
    assert_eq!(active.kind, ServiceOperationKind::StartCore);
    assert!(active.deadline_at_ms >= active.started_at_ms);
    assert_eq!(active.deadline_at_ms, 61_000);
    registry.end(id);
    let (after, active) = registry.snapshot();
    assert!(after > during);
    assert!(active.is_none());
}

#[test]
fn a_stale_end_never_clears_a_newer_operation() {
    let mut registry = OperationRegistry::new();
    let old = registry.begin(ServiceOperationKind::StopCore, 10, 1);
    let new = registry.begin(ServiceOperationKind::StageRuntime, u64::MAX, 2);
    assert_ne!(old, new);
    registry.end(old);
    assert_eq!(registry.snapshot().1.unwrap().id, new);
    assert_eq!(registry.snapshot().1.unwrap().deadline_at_ms, u64::MAX);
}

#[test]
fn missing_launchd_service_skips_bootout() {
    let plan = classify_launchd_service_probe(
        Some(113),
        "Could not find service \"io.github.clash-verge-rev.clash-verge-rev.service\" in domain for system",
    )
    .unwrap();
    assert_eq!(plan, LaunchdInstallPlan::SkipBootout);
}

#[test]
fn loaded_launchd_service_runs_bootout() {
    assert_eq!(classify_launchd_service_probe(Some(0), "").unwrap(), LaunchdInstallPlan::Bootout);
}

#[test]
fn unexpected_launchd_exit_is_an_error() {
    let result = classify_launchd_service_probe(Some(5), "Could not find service");
    assert_eq!(
        result,
        Err("Unexpected launchctl service probe result (exit code: Some(5)): Could not find service".to_owned())
    );
    assert_eq!(
        classify_launchd_service_probe(None, "x"),
        Err("Unexpected launchctl service probe result (exit code: None): x".to_owned())
    );
    assert_eq!(
        classify_launchd_service_probe(Some(-9), ""),
        Err("Unexpected launchctl service probe result (exit code: Some(-9)): ".to_owned())
    );
}

#[test]
fn absent_exit_does_not_depend_on_launchd_wording() {
    let result = classify_launchd_service_probe(Some(113), "Operation not permitted");
    assert_eq!(result.unwrap(), LaunchdInstallPlan::SkipBootout);
}

#[test]
fn only_sleep_and_wake_are_noted_and_stop_shuts_down() {
    assert_eq!(handle_control(ServiceControlKind::Stop), (true, ControlAction::Shutdown));
    assert_eq!(handle_control(ServiceControlKind::Interrogate), (true, ControlAction::Nothing));
    assert_eq!(
        handle_control(ServiceControlKind::PowerEvent(PowerEventKind::ResumeSuspend)),
        (true, ControlAction::NotePowerEvent)
    );
    assert_eq!(
        handle_control(ServiceControlKind::PowerEvent(PowerEventKind::Other)),
        (true, ControlAction::Nothing)
    );
    assert_eq!(handle_control(ServiceControlKind::Other), (false, ControlAction::Nothing));
    assert_eq!(service_exit_code(true), 1);
    assert_eq!(service_exit_code(false), 0);
}

#[test]
fn a_held_binary_is_retried_then_scheduled_for_reboot() {
    assert_eq!(publish_step(0, true), PublishStep::Published);
    assert_eq!(publish_step(0, false), PublishStep::RetryAfter(200));
    assert_eq!(publish_step(1, false), PublishStep::RetryAfter(500));
    assert_eq!(publish_step(2, false), PublishStep::RetryAfter(1000));
    assert_eq!(publish_step(3, false), PublishStep::ScheduleForReboot);
}

#[test]
fn process_identity_pieces_are_exact() {
    assert_eq!(filetime_ticks(1, 2), (1u64 << 32) | 2);
    assert_eq!(start_micros(3, 4), 3_000_004);
    assert_eq!(start_micros(u64::MAX, 0), u64::MAX);
    assert!(!open_failure_means_alive(Some(87)));
    assert!(open_failure_means_alive(Some(5)));
    assert!(open_failure_means_alive(None));
    assert!(!wait_means_alive(0));
    assert!(wait_means_alive(258));
    assert!(is_zombie_state("  Z+\n"));
    assert!(!is_zombie_state("S"));
    assert!(!is_zombie_state("   "));
}

#[test]
fn pending_services_are_waited_out_and_benign_stop_errors_tolerated() {
    assert_eq!(stop_step(ScmState::Stopped), StopStep::Stopped);
    assert_eq!(stop_step(ScmState::StopPending), StopStep::Wait);
    assert_eq!(stop_step(ScmState::StartPending), StopStep::Wait);
    assert_eq!(stop_step(ScmState::Running), StopStep::SendStop);
    assert_eq!(stop_step(ScmState::Paused), StopStep::SendStop);
    assert!(stop_error_tolerated(Some(1061)));
    assert!(stop_error_tolerated(Some(1062)));
    assert!(!stop_error_tolerated(Some(5)));
    assert!(!stop_error_tolerated(None));
}

#[test]
fn a_terminated_process_is_waited_for() {
    assert_eq!(termination_outcome(0), TerminationOutcome::Exited);
    assert_eq!(termination_outcome(258), TerminationOutcome::TimedOut);
    assert_eq!(termination_outcome(0xFFFF_FFFF), TerminationOutcome::WaitFailed);
    assert_eq!(termination_timeout_message(4242), "process 4242 did not terminate within 2 seconds");
}

#[test]
fn a_staged_copy_must_hash_like_its_source() {
    let digest = tono_service::lifecycle::sha256(b"hello world");
    let expected: [u8; 32] = [
        0xb9, 0x4d, 0x27, 0xb9, 0x93, 0x4d, 0x3e, 0x08, 0xa5, 0x2e, 0x52, 0xd7, 0xda, 0x7d, 0xab, 0xfa,
        0xc4, 0x84, 0xef, 0xe3, 0x7a, 0x53, 0x80, 0xee, 0x90, 0x88, 0xf7, 0xac, 0xe2, 0xef, 0xcd, 0xe9,
    ];
    assert_eq!(digest, expected);
    assert_eq!(tono_service::lifecycle::check_staged_copy(b"binary", b"binary"), Ok(()));
    assert_eq!(
        tono_service::lifecycle::check_staged_copy(b"binary", b"binarz"),
        Err("staged service binary hash does not match its bundled source".to_owned())
    );
}

fn stat_with_start(start: &str) -> String {
    format!(
        "1234 (my (odd) name) S 1 1234 1234 0 -1 4194560 100 0 0 0 1 2 0 0 20 0 1 0 {start} \
         12345678 3"
    )
}

#[test]
fn proc_stat_start_time_is_field_twenty_after_the_command_name() {
    assert_eq!(proc_start_time(&stat_with_start("98765")), Ok(98765));
    assert_eq!(proc_start_time("1 (x\tx) R\n 0 0 0 0 0 0 0 0 0 0 0 0 0 0 0 0 0 0 7"), Ok(7));
    assert_eq!(proc_start_time("1234 name S 1 2 3"), Err(ProcStatError::NoCommEnd));
    assert_eq!(proc_start_time("1234 (name) S 1 2 3"), Err(ProcStatError::MissingStartTime));
    assert_eq!(
        proc_start_time(&stat_with_start("12x")),
        Err(ProcStatError::StartTime(IntTextError::InvalidDigit))
    );
}

#[test]
fn proc_stat_start_time_parses_as_std_parses_a_u64() {
    for text in [
        "0",
        "+42",
        "+",
        "-5",
        "007",
        "18446744073709551615",
        "18446744073709551616",
        "99999999999999999999x",
        "1x99999999999999999999",
        "١٢",
    ] {
        let ours = proc_start_time(&stat_with_start(text));
        let std_result = match text.parse::<u64>() {
            Ok(v) => Ok(v),
            Err(e) => Err(ProcStatError::StartTime(match e.kind() {
                std::num::IntErrorKind::Empty => IntTextError::Empty,
                std::num::IntErrorKind::PosOverflow => IntTextError::PosOverflow,
                _ => IntTextError::InvalidDigit,
            })),
        };
        assert_eq!(ours, std_result, "{text}");
    }
}

#[test]
fn proc_stat_errors_read_as_std_and_proc_messages() {
    assert_eq!(
        proc_stat_error_message(7, ProcStatError::NoCommEnd),
        "invalid /proc stat for process 7"
    );
    assert_eq!(
        proc_stat_error_message(7, ProcStatError::MissingStartTime),
        "missing start time for process 7"
    );
    for (kind, text) in [
        (IntTextError::Empty, ""),
        (IntTextError::InvalidDigit, "x"),
        (IntTextError::PosOverflow, "99999999999999999999"),
    ] {
        assert_eq!(
            proc_stat_error_message(7, ProcStatError::StartTime(kind)),
            text.parse::<u64>().unwrap_err().to_string()
        );
    }
}

#[test]
fn a_kill_probe_refused_for_permission_still_proves_the_process_exists() {
    assert!(kill_probe_means_exists(0, None));
    assert!(kill_probe_means_exists(-1, Some(1)));
    assert!(!kill_probe_means_exists(-1, Some(3)));
    assert!(!kill_probe_means_exists(-1, None));
}

/// Run the cleanup machine over step outcomes, returning the steps it visited and where it
/// ended.
fn run_cleanup(outcomes: &[StepEvent], recovery_present: bool) -> (Vec<CleanupStep>, CleanupStep) {
    let mut step = CleanupStep::Connect;
    let mut visited = vec![step.clone()];
    for event in outcomes {
        if matches!(step, CleanupStep::Finished(_)) {
            break;
        }
        step = cleanup_next(step, event.clone(), recovery_present);
        visited.push(step.clone());
    }
    (visited, step)
}

fn failed(text: &str) -> StepEvent {
    StepEvent::Failed(text.to_owned())
}

#[test]
fn cleanup_failures_before_the_disarm_keep_the_machine_protected() {
    let done = StepEvent::Done;
    for failing_at in 0..4 {
        let mut outcomes = vec![done.clone(); failing_at];
        outcomes.push(failed("boom"));
        let (visited, end) = run_cleanup(&outcomes, true);
        assert_eq!(end, CleanupStep::Finished(CleanupOutcome::StillProtected("boom".to_owned())));
        assert!(!visited.contains(&CleanupStep::DeleteService));
        assert!(!visited.contains(&CleanupStep::RemoveBinary));
        assert_eq!(cleanup_exit_code(&CleanupOutcome::StillProtected("boom".to_owned())), EXIT_STILL_PROTECTED);
    }
}

#[test]
fn cleanup_failures_after_a_proven_disarm_are_cosmetic() {
    let done = StepEvent::Done;
    for failing_at in 4..7 {
        let mut outcomes = vec![done.clone(); failing_at];
        outcomes.push(failed("debris"));
        let (_, end) = run_cleanup(&outcomes, true);
        assert_eq!(end, CleanupStep::Finished(CleanupOutcome::CosmeticFailure("debris".to_owned())));
    }
    let (visited, end) = run_cleanup(&vec![done; 7], true);
    assert_eq!(end, CleanupStep::Finished(CleanupOutcome::Clean));
    assert_eq!(visited[4], CleanupStep::DeleteService);
    assert_eq!(visited[3], CleanupStep::Disarm { service: true });
}

#[test]
fn a_missing_service_is_disarmed_only_when_recovery_state_remains() {
    let (visited, end) = run_cleanup(&[StepEvent::Done, StepEvent::ServiceMissing, StepEvent::Done], false);
    assert_eq!(visited[2], CleanupStep::RemoveBinary, "nothing to clean: straight to the binary");
    assert_eq!(end, CleanupStep::Finished(CleanupOutcome::Clean));
    let (visited, end) = run_cleanup(
        &[StepEvent::Done, StepEvent::ServiceMissing, StepEvent::Done, StepEvent::Done],
        true,
    );
    assert_eq!(visited[2], CleanupStep::Disarm { service: false });
    assert_eq!(visited[3], CleanupStep::RemoveBinary, "no record to delete");
    assert_eq!(end, CleanupStep::Finished(CleanupOutcome::Clean));
    let (_, end) = run_cleanup(&[StepEvent::Done, StepEvent::ServiceMissing, failed("owner lock held")], true);
    assert_eq!(end, CleanupStep::Finished(CleanupOutcome::StillProtected("owner lock held".to_owned())));
}

#[test]
fn a_finished_cleanup_stays_finished() {
    let end = CleanupStep::Finished(CleanupOutcome::StillProtected("armed".to_owned()));
    assert_eq!(cleanup_next(end.clone(), StepEvent::Done, false), end);
    assert_eq!(cleanup_next(end.clone(), failed("x"), true), end);
}
