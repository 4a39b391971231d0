//! The uninstall helper's contract with the installer: how cleanup ended, and the exit code
//! each ending maps to. Only an unproven disarm may block an uninstall.

use vstd::prelude::*;

verus! {

/// Continue with a warning: the disarm was proven, only cosmetic debris remains.
pub const EXIT_COSMETIC_FAILURE: i32 = 2;
/// Block the uninstall: the machine is still protected.
pub const EXIT_STILL_PROTECTED: i32 = 3;

/// How Windows cleanup ended.
#[derive(Clone, Debug, PartialEq, Eq)]
pub enum CleanupOutcome {
    /// Nothing is armed and nothing of the service remains.
    Clean,
    /// The disarm was proven, but removing the SCM record or the binary failed.
    CosmeticFailure(String),
    /// The network could not be proven restored; the kill switch stays armed.
    StillProtected(String),
}

pub fn cleanup_exit_code(outcome: &CleanupOutcome) -> (r: i32)
    ensures
        r == match outcome {
            CleanupOutcome::Clean => 0i32,
            CleanupOutcome::CosmeticFailure(_) => EXIT_COSMETIC_FAILURE,
            CleanupOutcome::StillProtected(_) => EXIT_STILL_PROTECTED,
        },
{
    match outcome {
        CleanupOutcome::Clean => 0,
        CleanupOutcome::CosmeticFailure(_) => EXIT_COSMETIC_FAILURE,
        CleanupOutcome::StillProtected(_) => EXIT_STILL_PROTECTED,
    }
}

/// The three endings never share an exit code, and none of them reads as a generic failure
/// (1): a cosmetic failure can never pass as blocking or as clean.
pub proof fn exit_codes_are_distinct()
    ensures
        EXIT_COSMETIC_FAILURE != 0 && EXIT_COSMETIC_FAILURE != 1,
        EXIT_STILL_PROTECTED != 0 && EXIT_STILL_PROTECTED != 1,
        EXIT_COSMETIC_FAILURE != EXIT_STILL_PROTECTED,
{
}

/// Whether fail-closed recovery state may still exist: the intent record, the DNS snapshot or
/// a daemon pid file. An existence probe that could not answer (`None`) counts as present.
pub fn recovery_state_present(intent: Option<bool>, dns_snapshot: Option<bool>, pid_file: Option<bool>) -> (r:
    bool)
    ensures
        r == (intent != Some(false) || dns_snapshot != Some(false) || pid_file != Some(false)),
{
    let may = |o: Option<bool>| -> (b: bool)
        ensures
            b == (o != Some(false)),
        {
            match o {
                Some(v) => v,
                None => true,
            }
        };
    may(intent) || may(dns_snapshot) || may(pid_file)
}

/// With no service record and no recovery state there is nothing to disarm.
pub fn nothing_to_clean(service_exists: bool, recovery_present: bool) -> (r: bool)
    ensures
        r == (!service_exists && !recovery_present),
{
    !service_exists && !recovery_present
}

/// One round of a bounded poll.
#[derive(Clone, Copy, Debug, PartialEq, Eq, Structural)]
pub enum PollAction {
    /// The probe found what it waited for.
    Done,
    /// Pause, then probe again.
    Pause,
    /// The attempts are spent.
    TimedOut,
}

/// After probe number `attempt` (from 0) of at most `max_attempts`: done when found, a pause
/// between probes, and a timeout after the last one without a pause.
pub fn poll_step(attempt: usize, max_attempts: usize, found: bool) -> (r: PollAction)
    ensures
        found ==> r == PollAction::Done,
        !found ==> r == if attempt + 1 < max_attempts {
            PollAction::Pause
        } else {
            PollAction::TimedOut
        },
{
    if found {
        PollAction::Done
    } else if attempt < max_attempts && attempt + 1 < max_attempts {
        PollAction::Pause
    } else {
        PollAction::TimedOut
    }
}

/// A step of the Windows cleanup. Everything before the proven disarm is fail-closed; only
/// the service record and the binary come after it.
#[derive(Clone, Debug, PartialEq, Eq)]
pub enum CleanupStep {
    /// Connect to the service control manager.
    Connect,
    /// Open the service record.
    OpenService,
    /// Stop the service.
    StopService,
    /// Take the owner lock and run the emergency disarm; `service` says whether a service
    /// record is open and must be deleted afterwards.
    Disarm { service: bool },
    /// Delete the service record.
    DeleteService,
    /// Wait until the record is gone.
    PollDeletion,
    /// Remove the service binary.
    RemoveBinary,
    /// Cleanup ended.
    Finished(CleanupOutcome),
}

/// How a step went.
#[derive(Clone, Debug, PartialEq, Eq)]
pub enum StepEvent {
    Done,
    /// The SCM has no such service; at any step but `OpenService` this reads as `Done`.
    ServiceMissing,
    Failed(String),
}

/// One cleanup step by its outcome. `recovery_present` matters only for a missing service:
/// with no recovery state either, there is nothing to disarm.
pub open spec fn cleanup_step_spec(step: CleanupStep, event: StepEvent, recovery_present: bool) -> CleanupStep {
    match event {
        StepEvent::Failed(e) => match step {
            CleanupStep::Connect | CleanupStep::OpenService | CleanupStep::StopService
            | CleanupStep::Disarm { .. } => CleanupStep::Finished(CleanupOutcome::StillProtected(e)),
            CleanupStep::DeleteService | CleanupStep::PollDeletion | CleanupStep::RemoveBinary =>
                CleanupStep::Finished(CleanupOutcome::CosmeticFailure(e)),
            CleanupStep::Finished(o) => CleanupStep::Finished(o),
        },
        _ => match step {
            CleanupStep::Connect => CleanupStep::OpenService,
            CleanupStep::OpenService => if event is ServiceMissing {
                if recovery_present {
                    CleanupStep::Disarm { service: false }
                } else {
                    CleanupStep::RemoveBinary
                }
            } else {
                CleanupStep::StopService
            },
            CleanupStep::StopService => CleanupStep::Disarm { service: true },
            CleanupStep::Disarm { service } => if service {
                CleanupStep::DeleteService
            } else {
                CleanupStep::RemoveBinary
            },
            CleanupStep::DeleteService => CleanupStep::PollDeletion,
            CleanupStep::PollDeletion => CleanupStep::RemoveBinary,
            CleanupStep::RemoveBinary => CleanupStep::Finished(CleanupOutcome::Clean),
            CleanupStep::Finished(o) => CleanupStep::Finished(o),
        },
    }
}

/// Advance the Windows cleanup by the outcome of `step`.
pub fn cleanup_next(step: CleanupStep, event: StepEvent, recovery_present: bool) -> (r: CleanupStep)
    ensures
        r == cleanup_step_spec(step, event, recovery_present),
{
    match event {
        StepEvent::Failed(e) => match step {
            CleanupStep::Connect | CleanupStep::OpenService | CleanupStep::StopService
            | CleanupStep::Disarm { .. } => CleanupStep::Finished(CleanupOutcome::StillProtected(e)),
            CleanupStep::DeleteService | CleanupStep::PollDeletion | CleanupStep::RemoveBinary =>
                CleanupStep::Finished(CleanupOutcome::CosmeticFailure(e)),
            CleanupStep::Finished(o) => CleanupStep::Finished(o),
        },
        StepEvent::ServiceMissing => match step {
            CleanupStep::OpenService => if recovery_present {
                CleanupStep::Disarm { service: false }
            } else {
                CleanupStep::RemoveBinary
            },
            other => advance(other),
        },
        StepEvent::Done => match step {
            CleanupStep::OpenService => CleanupStep::StopService,
            other => advance(other),
        },
    }
}

/// A step that went well, other than opening the service.
fn advance(step: CleanupStep) -> (r: CleanupStep)
    requires
        !(step is OpenService),
    ensures
        r == cleanup_step_spec(step, StepEvent::Done, false),
{
    match step {
        CleanupStep::Connect => CleanupStep::OpenService,
        CleanupStep::OpenService => CleanupStep::StopService,
        CleanupStep::StopService => CleanupStep::Disarm { service: true },
        CleanupStep::Disarm { service } => if service {
            CleanupStep::DeleteService
        } else {
            CleanupStep::RemoveBinary
        },
        CleanupStep::DeleteService => CleanupStep::PollDeletion,
        CleanupStep::PollDeletion => CleanupStep::RemoveBinary,
        CleanupStep::RemoveBinary => CleanupStep::Finished(CleanupOutcome::Clean),
        CleanupStep::Finished(o) => CleanupStep::Finished(o),
    }
}

/// Where a cleanup stands after these step outcomes, each with the recovery-state answer.
pub open spec fn cleanup_run(events: Seq<(StepEvent, bool)>) -> CleanupStep
    decreases events.len(),
{
    if events.len() == 0 {
        CleanupStep::Connect
    } else {
        cleanup_step_spec(cleanup_run(events.drop_last()), events.last().0, events.last().1)
    }
}

/// Outcome `i` of `events` opened the irreversible half: a disarm that succeeded, or a missing
/// service with no recovery state at all.
pub open spec fn opens_at(events: Seq<(StepEvent, bool)>, i: int) -> bool {
    let before = cleanup_run(events.take(i));
    ||| before is Disarm && !(events[i].0 is Failed)
    ||| before is OpenService && events[i].0 is ServiceMissing && !events[i].1
}

pub open spec fn past_disarm(step: CleanupStep) -> bool {
    ||| step is DeleteService
    ||| step is PollDeletion
    ||| step is RemoveBinary
    ||| step matches CleanupStep::Finished(CleanupOutcome::Clean)
    ||| step matches CleanupStep::Finished(CleanupOutcome::CosmeticFailure(_))
}

/// Only an unproven disarm can block an uninstall: the service record and the binary are
/// touched, and a cleanup ends `Clean` or `CosmeticFailure`, only after a disarm succeeded
/// (or nothing existed to disarm); any failure before that ends `StillProtected`, which is
/// final.
pub proof fn cosmetic_only_after_proven_disarm(events: Seq<(StepEvent, bool)>)
    ensures
        past_disarm(cleanup_run(events)) ==> exists|i: int| 0 <= i < events.len() && #[trigger] opens_at(events, i),
        cleanup_run(events) matches CleanupStep::Finished(CleanupOutcome::StillProtected(_)) ==> forall|e: StepEvent, p: bool|
            #[trigger] cleanup_step_spec(cleanup_run(events), e, p) == cleanup_run(events),
    decreases events.len(),
{
    if events.len() > 0 {
        let prev = events.drop_last();
        cosmetic_only_after_proven_disarm(prev);
        let n = events.len() - 1;
        assert(events.take(n) =~= prev);
        if past_disarm(cleanup_run(events)) {
            if past_disarm(cleanup_run(prev)) {
                let i = choose|i: int| 0 <= i < prev.len() && #[trigger] opens_at(prev, i);
                assert(events.take(i) =~= prev.take(i));
                assert(events[i] == prev[i]);
                assert(opens_at(events, i));
            } else {
                assert(opens_at(events, n));
            }
        }
    }
}

} // verus!
