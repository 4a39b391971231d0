//! The service process's decisions around the platform: which service-control events are
//! handled and what they trigger, the stopped status's exit code, how the installer publishes
//! a binary that may be in use, and how a launchd probe is read.

use crate::text::dec_text;
use vstd::prelude::*;

verus! {

/// A power event's kind, as the service control handler receives it.
#[derive(Clone, Copy, Debug, PartialEq, Eq, Structural)]
pub enum PowerEventKind {
    Suspend,
    ResumeAutomatic,
    ResumeSuspend,
    /// AC/battery flaps, power-setting changes, battery-low.
    Other,
}

/// A service control request.
#[derive(Clone, Copy, Debug, PartialEq, Eq, Structural)]
pub enum ServiceControlKind {
    Stop,
    Interrogate,
    PowerEvent(PowerEventKind),
    Other,
}

/// What a control request does besides its answer.
#[derive(Clone, Copy, Debug, PartialEq, Eq, Structural)]
pub enum ControlAction {
    Nothing,
    /// Signal the service loop to shut down.
    Shutdown,
    /// Record a sleep/wake transition; the barrier stays armed.
    NotePowerEvent,
}

/// The control handler: stop shuts down, genuine sleep/wake transitions are noted, every other
/// power event and interrogation are answered without action, anything else is not
/// implemented (`false`).
pub fn handle_control(control: ServiceControlKind) -> (r: (bool, ControlAction))
    ensures
        r.0 == !(control == ServiceControlKind::Other),
        r.1 == match control {
            ServiceControlKind::Stop => ControlAction::Shutdown,
            ServiceControlKind::PowerEvent(k) => if k == PowerEventKind::Other {
                ControlAction::Nothing
            } else {
                ControlAction::NotePowerEvent
            },
            _ => ControlAction::Nothing,
        },
{
    match control {
        ServiceControlKind::Stop => (true, ControlAction::Shutdown),
        ServiceControlKind::Interrogate => (true, ControlAction::Nothing),
        ServiceControlKind::PowerEvent(k) => match k {
            PowerEventKind::Other => (true, ControlAction::Nothing),
            _ => (true, ControlAction::NotePowerEvent),
        },
        ServiceControlKind::Other => (false, ControlAction::Nothing),
    }
}

/// The stopped status's Win32 exit code.
pub fn service_exit_code(fatal: bool) -> (r: u32)
    ensures
        r == if fatal {
            1u32
        } else {
            0u32
        },
{
    if fatal {
        1
    } else {
        0
    }
}

/// An SCM service state.
#[derive(Clone, Copy, Debug, PartialEq, Eq, Structural)]
pub enum ScmState {
    Stopped,
    StartPending,
    StopPending,
    Running,
    ContinuePending,
    PausePending,
    Paused,
}

/// One round of stopping a service.
#[derive(Clone, Copy, Debug, PartialEq, Eq, Structural)]
pub enum StopStep {
    /// It is stopped.
    Stopped,
    /// A transition is under way: wait and look again.
    Wait,
    /// Ask it to stop, then look again.
    SendStop,
}

/// Pending transitions are waited out rather than treated as failures.
pub fn stop_step(state: ScmState) -> (r: StopStep)
    ensures
        r == match state {
            ScmState::Stopped => StopStep::Stopped,
            ScmState::StartPending | ScmState::StopPending | ScmState::ContinuePending
            | ScmState::PausePending => StopStep::Wait,
            _ => StopStep::SendStop,
        },
{
    match state {
        ScmState::Stopped => StopStep::Stopped,
        ScmState::StartPending | ScmState::StopPending | ScmState::ContinuePending
        | ScmState::PausePending => StopStep::Wait,
        _ => StopStep::SendStop,
    }
}

/// `ERROR_SERVICE_CANNOT_ACCEPT_CTRL` and `ERROR_SERVICE_NOT_ACTIVE`.
pub const ERROR_SERVICE_CANNOT_ACCEPT_CTRL: i32 = 1061;
pub const ERROR_SERVICE_NOT_ACTIVE: i32 = 1062;

/// A stop request refused because the service is mid-transition or already inactive is no
/// failure; anything else is.
pub fn stop_error_tolerated(os_error: Option<i32>) -> (r: bool)
    ensures
        r == (os_error == Some(ERROR_SERVICE_CANNOT_ACCEPT_CTRL) || os_error == Some(
            ERROR_SERVICE_NOT_ACTIVE,
        )),
{
    match os_error {
        Some(code) => code == ERROR_SERVICE_CANNOT_ACCEPT_CTRL || code == ERROR_SERVICE_NOT_ACTIVE,
        None => false,
    }
}

/// Restart delays (seconds) of the SCM failure actions, and their reset period.
pub const RECOVERY_RESTART_DELAYS_S: [u64; 3] = [5, 10, 30];
pub const RECOVERY_RESET_PERIOD_S: u64 = 86_400;

/// Waits between attempts to replace a service binary that may still be held open.
pub const PUBLISH_BACKOFFS_MS: [u64; 3] = [200, 500, 1000];

/// How a binary replacement ended.
#[derive(Clone, Copy, Debug, PartialEq, Eq, Structural)]
pub enum PublishOutcome {
    Published,
    RebootRequired,
}

/// The next move of a binary replacement.
#[derive(Clone, Copy, Debug, PartialEq, Eq, Structural)]
pub enum PublishStep {
    /// The replacement landed.
    Published,
    /// Wait this long and try again.
    RetryAfter(u64),
    /// The file stays held: schedule the replacement for the next reboot.
    ScheduleForReboot,
}

/// After replacement attempt `attempt` (from 0): four attempts with the three backoffs between
/// them, then the reboot-time replacement.
pub fn publish_step(attempt: usize, moved: bool) -> (r: PublishStep)
    ensures
        moved ==> r == PublishStep::Published,
        !moved && attempt < 3 ==> r == PublishStep::RetryAfter(PUBLISH_BACKOFFS_MS[attempt as int]),
        !moved && attempt >= 3 ==> r == PublishStep::ScheduleForReboot,
{
    if moved {
        PublishStep::Published
    } else if attempt < 3 {
        PublishStep::RetryAfter(PUBLISH_BACKOFFS_MS[attempt])
    } else {
        PublishStep::ScheduleForReboot
    }
}

/// What an install does with an existing launchd job.
#[derive(Clone, Copy, Debug, PartialEq, Eq, Structural)]
pub enum LaunchdInstallPlan {
    SkipBootout,
    Bootout,
}

pub open spec fn int_text(n: i32) -> Seq<char> {
    if n < 0 {
        "-"@ + dec_text((-(n as int)) as nat)
    } else {
        dec_text(n as nat)
    }
}

/// `{:?}` of an optional exit code.
pub open spec fn exit_code_debug(code: Option<i32>) -> Seq<char> {
    match code {
        Some(n) => "Some("@ + int_text(n) + ")"@,
        None => "None"@,
    }
}

pub open spec fn launchd_probe_error(code: Option<i32>, diagnostic: Seq<char>) -> Seq<char> {
    "Unexpected launchctl service probe result (exit code: "@ + exit_code_debug(code) + "): "@
        + diagnostic
}

fn push_int(out: &mut String, n: i32)
    ensures
        final(out)@ == old(out)@ + int_text(n),
{
    if n < 0 {
        out.append("-");
        let m: u64 = if n == i32::MIN {
            2147483648u64
        } else {
            (-n) as u64
        };
        crate::text::push_decimal(out, m);
    } else {
        crate::text::push_decimal(out, n as u64);
    }
}

/// `launchctl print` answered 0 (loaded: boot it out) or 113 (absent: skip), whatever its
/// wording; anything else is an error carrying the diagnostic.
pub fn classify_launchd_service_probe(exit_code: Option<i32>, diagnostic: &str) -> (r: Result<
    LaunchdInstallPlan,
    String,
>)
    ensures
        exit_code == Some(0i32) ==> r == Ok::<LaunchdInstallPlan, String>(LaunchdInstallPlan::Bootout),
        exit_code == Some(113i32) ==> r == Ok::<LaunchdInstallPlan, String>(
            LaunchdInstallPlan::SkipBootout,
        ),
        exit_code != Some(0i32) && exit_code != Some(113i32) ==> (r matches Err(e) && e@
            == launchd_probe_error(exit_code, diagnostic@)),
{
    match exit_code {
        Some(0) => Ok(LaunchdInstallPlan::Bootout),
        Some(113) => Ok(LaunchdInstallPlan::SkipBootout),
        _ => {
            let mut msg = String::new();
            msg.append("Unexpected launchctl service probe result (exit code: ");
            match exit_code {
                Some(n) => {
                    msg.append("Some(");
                    push_int(&mut msg, n);
                    msg.append(")");
                },
                None => msg.append("None"),
            }
            msg.append("): ");
            msg.append(diagnostic);
            Err(msg)
        },
    }
}

/// The SHA-256 digest of a byte string.
pub uninterp spec fn sha256_spec(data: Seq<u8>) -> Seq<u8>;

/// `sha2::Sha256::digest`: the SHA-256 digest of `data`, a function of the bytes alone; the
/// digest itself is named, not spelled out.
#[verifier::external_body]
fn sha256_digest(data: &[u8]) -> (r: [u8; 32])
    ensures
        r@ == sha256_spec(data@),
{
    <sha2::Sha256 as sha2::Digest>::digest(data).into()
}

/// The SHA-256 digest of a file's contents.
pub fn sha256(data: &[u8]) -> (r: [u8; 32])
    ensures
        r@ == sha256_spec(data@),
{
    sha256_digest(data)
}

pub const STAGED_HASH_MISMATCH: &'static str = "staged service binary hash does not match its bundled source";

/// A staged copy is accepted only if its digest equals its source's.
pub fn staged_copy_matches(source_digest: &[u8; 32], staged_digest: &[u8; 32]) -> (r: Result<(), String>)
    ensures
        r is Ok <==> source_digest@ == staged_digest@,
        r matches Err(e) ==> e@ == STAGED_HASH_MISMATCH@,
{
    let mut i: usize = 0;
    while i < 32
        invariant
            i <= 32,
            forall|j: int| 0 <= j < i ==> source_digest@[j] == staged_digest@[j],
        decreases 32 - i,
    {
        if source_digest[i] != staged_digest[i] {
            return Err(STAGED_HASH_MISMATCH.to_string());
        }
        i = i + 1;
    }
    assert(source_digest@ =~= staged_digest@);
    Ok(())
}

/// The staged binary's integrity check: its bytes hash like the bundled source's.
pub fn check_staged_copy(source: &[u8], staged: &[u8]) -> (r: Result<(), String>)
    ensures
        r is Ok <==> sha256_spec(source@) == sha256_spec(staged@),
        r matches Err(e) ==> e@ == STAGED_HASH_MISMATCH@,
{
    let a = sha256(source);
    let b = sha256(staged);
    staged_copy_matches(&a, &b)
}

} // verus!
