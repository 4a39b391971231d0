//! What identifies a process across a service restart, and the decisions of the liveness
//! probe. Reading `/proc`, the Win32 process APIs and `ps` stay with the caller; what they
//! return is interpreted here. Uncertainty always reads as alive (fail-closed).

use crate::dns_live::last_index_of;
use crate::ip::{digits_value, is_dec_digit};
use crate::text::{is_ws, skip_ws_from};
use vstd::prelude::*;

verus! {

/// A process by its canonical executable and start time.
#[derive(Clone, Debug, PartialEq, Eq)]
pub struct ProcessIdentity {
    pub executable: String,
    pub started_at: u64,
}

/// `ERROR_INVALID_PARAMETER`: the pid names no process.
pub const ERROR_INVALID_PARAMETER: i32 = 87;
/// `WAIT_OBJECT_0`: the process handle is signalled, the process has exited.
pub const WAIT_OBJECT_0: u32 = 0;

/// A Win32 `FILETIME` as one tick count.
pub fn filetime_ticks(high: u32, low: u32) -> (r: u64)
    ensures
        r == high as nat * 0x1_0000_0000 + low as nat,
{
    let r = ((high as u64) << 32u64) | (low as u64);
    assert(((high as u64) << 32u64) | (low as u64) == (high as u64) * 0x1_0000_0000u64 + (
    low as u64)) by (bit_vector);
    r
}

/// A BSD start time (seconds and microseconds) in microseconds, saturating.
pub fn start_micros(seconds: u64, micros: u64) -> (r: u64)
    ensures
        r == if seconds as nat * 1_000_000 + micros as nat > u64::MAX {
            u64::MAX as nat
        } else {
            seconds as nat * 1_000_000 + micros as nat
        },
{
    let scaled = if seconds > u64::MAX / 1_000_000 {
        u64::MAX
    } else {
        seconds * 1_000_000
    };
    proof {
        if seconds > u64::MAX / 1_000_000 {
            assert(seconds as nat * 1_000_000 > u64::MAX) by (nonlinear_arith)
                requires
                    seconds > u64::MAX / 1_000_000,
            ;
        }
    }
    scaled.saturating_add(micros)
}

/// When opening the process failed: only "no such process" reads as gone; access denied or
/// any other failure reads as alive.
pub fn open_failure_means_alive(os_error: Option<i32>) -> (r: bool)
    ensures
        r == (os_error != Some(ERROR_INVALID_PARAMETER)),
{
    match os_error {
        Some(code) => code != ERROR_INVALID_PARAMETER,
        None => true,
    }
}

/// A zero-timeout wait on the process handle: signalled means exited, anything else alive.
pub fn wait_means_alive(wait_result: u32) -> (r: bool)
    ensures
        r == (wait_result != WAIT_OBJECT_0),
{
    wait_result != WAIT_OBJECT_0
}

/// `WAIT_TIMEOUT`: the process is still running when the wait ends.
pub const WAIT_TIMEOUT: u32 = 258;
/// How long a terminated process is given to exit.
pub const TERMINATE_WAIT_MS: u32 = 2_000;

/// How a termination ended, by the wait on the terminated handle.
#[derive(Clone, Copy, Debug, PartialEq, Eq, Structural)]
pub enum TerminationOutcome {
    Exited,
    /// Still running after the wait.
    TimedOut,
    /// The wait itself failed.
    WaitFailed,
}

pub fn termination_outcome(wait_result: u32) -> (r: TerminationOutcome)
    ensures
        r == if wait_result == WAIT_OBJECT_0 {
            TerminationOutcome::Exited
        } else if wait_result == WAIT_TIMEOUT {
            TerminationOutcome::TimedOut
        } else {
            TerminationOutcome::WaitFailed
        },
{
    if wait_result == WAIT_OBJECT_0 {
        TerminationOutcome::Exited
    } else if wait_result == WAIT_TIMEOUT {
        TerminationOutcome::TimedOut
    } else {
        TerminationOutcome::WaitFailed
    }
}

/// The error of a process that outlived its termination wait.
pub fn termination_timeout_message(pid: u32) -> (r: String)
    ensures
        r@ == "process "@ + crate::text::dec_text(pid as nat) + " did not terminate within 2 seconds"@,
{
    let mut msg = String::new();
    msg.append("process ");
    crate::text::push_decimal(&mut msg, pid as u64);
    msg.append(" did not terminate within 2 seconds");
    msg
}

/// `ps -o stat=` output of a zombie: after leading whitespace, a `Z`.
pub open spec fn zombie_spec(stat: Seq<char>) -> bool {
    let i = skip_ws_from(stat, 0);
    i < stat.len() && stat[i] == 'Z'
}

pub fn is_zombie_state(stat: &str) -> (r: bool)
    ensures
        r == zombie_spec(stat@),
{
    let n = stat.unicode_len();
    let mut i: usize = 0;
    while i < n && crate::text::is_whitespace(stat.get_char(i))
        invariant
            n == stat@.len(),
            i <= n,
            skip_ws_from(stat@, i as int) == skip_ws_from(stat@, 0),
        decreases n - i,
    {
        i = i + 1;
    }
    i < n && stat.get_char(i) == 'Z'
}

// ---------------------------------------------------------------------------------------------
// `/proc/<pid>/stat`
// ---------------------------------------------------------------------------------------------

/// The end of the word that starts at `i`: the first whitespace at or after `i`, or the end.
pub open spec fn word_end_from(s: Seq<char>, i: int) -> int
    decreases s.len() - i,
{
    if 0 <= i < s.len() && !is_ws(s[i]) {
        word_end_from(s, i + 1)
    } else {
        i
    }
}

/// Word `k` (from 0) of `str::split_whitespace` over `s[i..]`, if it has that many.
pub open spec fn ws_field(s: Seq<char>, i: int, k: nat) -> Option<Seq<char>>
    decreases k,
{
    let a = skip_ws_from(s, i);
    if a >= s.len() {
        None
    } else if k == 0 {
        Some(s.subrange(a, word_end_from(s, a)))
    } else {
        ws_field(s, word_end_from(s, a), (k - 1) as nat)
    }
}

/// Why `u64::from_str` refused a text, as `std::num::IntErrorKind` names it.
#[derive(Clone, Copy, Debug, PartialEq, Eq, Structural)]
pub enum IntTextError {
    Empty,
    InvalidDigit,
    PosOverflow,
}

/// The first index at or after `i` that holds no decimal digit (or the end).
pub open spec fn digits_end_from(d: Seq<char>, i: int) -> int
    decreases d.len() - i,
{
    if 0 <= i < d.len() && is_dec_digit(d[i]) {
        digits_end_from(d, i + 1)
    } else {
        i
    }
}

/// `u64::from_str`. An optional `+` is dropped; the digits are read left to right and the
/// first event decides: a character that is no digit, or a value past `u64::MAX`.
pub open spec fn u64_parse(p: Seq<char>) -> Result<u64, IntTextError> {
    if p.len() == 0 {
        Err(IntTextError::Empty)
    } else {
        let d = if p[0] == '+' {
            p.subrange(1, p.len() as int)
        } else {
            p
        };
        let k = digits_end_from(d, 0);
        if d.len() == 0 {
            Err(IntTextError::InvalidDigit)
        } else if digits_value(d.subrange(0, k), 10) > u64::MAX {
            Err(IntTextError::PosOverflow)
        } else if k < d.len() {
            Err(IntTextError::InvalidDigit)
        } else {
            Ok(digits_value(d, 10) as u64)
        }
    }
}

/// Why a `/proc/<pid>/stat` line gave no start time.
#[derive(Clone, Copy, Debug, PartialEq, Eq, Structural)]
pub enum ProcStatError {
    /// No `)` closes the command name.
    NoCommEnd,
    /// Fewer than twenty fields follow the command name.
    MissingStartTime,
    /// The start-time field is no `u64`.
    StartTime(IntTextError),
}

/// The start time of `/proc/<pid>/stat`: field 20 (from 1) of what follows the last `)`,
/// which closes the command name (a name may itself hold parentheses and blanks).
pub open spec fn proc_start_time_spec(stat: Seq<char>) -> Result<u64, ProcStatError> {
    let close = last_index_of(stat, ')', stat.len() as int);
    if close < 0 {
        Err(ProcStatError::NoCommEnd)
    } else {
        match ws_field(stat, close + 1, 19) {
            None => Err(ProcStatError::MissingStartTime),
            Some(field) => match u64_parse(field) {
                Ok(v) => Ok(v),
                Err(e) => Err(ProcStatError::StartTime(e)),
            },
        }
    }
}

proof fn lemma_digits_nonneg(d: Seq<char>)
    requires
        forall|j: int| 0 <= j < d.len() ==> is_dec_digit(#[trigger] d[j]),
    ensures
        digits_value(d, 10) >= 0,
    decreases d.len(),
{
    if d.len() > 0 {
        lemma_digits_nonneg(d.drop_last());
    }
}

/// A longer digit string is worth at least as much as its prefix.
proof fn lemma_digits_prefix_le(d: Seq<char>, m: int)
    requires
        0 <= m <= d.len(),
        forall|j: int| 0 <= j < d.len() ==> is_dec_digit(#[trigger] d[j]),
    ensures
        digits_value(d.subrange(0, m), 10) <= digits_value(d, 10),
    decreases d.len() - m,
{
    if m == d.len() {
        assert(d.subrange(0, m) =~= d);
    } else {
        lemma_digits_prefix_le(d, m + 1);
        let q = d.subrange(0, m + 1);
        assert(q.drop_last() =~= d.subrange(0, m));
        lemma_digits_nonneg(d.subrange(0, m));
    }
}

proof fn lemma_digits_end_bounds(d: Seq<char>, i: int)
    requires
        0 <= i <= d.len(),
    ensures
        i <= digits_end_from(d, i) <= d.len(),
        forall|j: int| i <= j < digits_end_from(d, i) ==> is_dec_digit(#[trigger] d[j]),
        digits_end_from(d, i) < d.len() ==> !is_dec_digit(d[digits_end_from(d, i)]),
    decreases d.len() - i,
{
    if i < d.len() && is_dec_digit(d[i]) {
        lemma_digits_end_bounds(d, i + 1);
    }
}

/// `u64_parse` of `s[a..b]`.
fn u64_parse_at(s: &str, a: usize, b: usize) -> (r: Result<u64, IntTextError>)
    requires
        a <= b <= s@.len(),
    ensures
        r == u64_parse(s@.subrange(a as int, b as int)),
{
    let ghost p = s@.subrange(a as int, b as int);
    if a == b {
        return Err(IntTextError::Empty);
    }
    let start = if s.get_char(a) == '+' {
        a + 1
    } else {
        a
    };
    let ghost d = s@.subrange(start as int, b as int);
    proof {
        if s@[a as int] == '+' {
            assert(p.subrange(1, p.len() as int) =~= d);
        } else {
            assert(p =~= d);
        }
        lemma_digits_end_bounds(d, 0);
    }
    if start == b {
        return Err(IntTextError::InvalidDigit);
    }
    let ghost k = digits_end_from(d, 0);
    assert(u64_parse(p) == if digits_value(d.subrange(0, k), 10) > u64::MAX {
        Err(IntTextError::PosOverflow)
    } else if k < d.len() {
        Err(IntTextError::InvalidDigit)
    } else {
        Ok(digits_value(d, 10) as u64)
    });
    let mut acc: u64 = 0;
    let mut i: usize = start;
    while i < b
        invariant
            a <= start <= i <= b <= s@.len(),
            start < b,
            p == s@.subrange(a as int, b as int),
            d == s@.subrange(start as int, b as int),
            k == digits_end_from(d, 0),
            0 <= k <= d.len(),
            forall|j: int| 0 <= j < k ==> is_dec_digit(#[trigger] d[j]),
            k < d.len() ==> !is_dec_digit(d[k]),
            u64_parse(p) == if digits_value(d.subrange(0, k), 10) > u64::MAX {
                Err(IntTextError::PosOverflow)
            } else if k < d.len() {
                Err(IntTextError::InvalidDigit)
            } else {
                Ok(digits_value(d, 10) as u64)
            },
            i - start <= k,
            acc == digits_value(d.subrange(0, i - start), 10),
        decreases b - i,
    {
        let c = s.get_char(i);
        if !('0' <= c && c <= '9') {
            proof {
                assert(d[i - start] == c);
                assert(i - start == k);
                assert(d.subrange(0, k) =~= d.subrange(0, i - start));
            }
            return Err(IntTextError::InvalidDigit);
        }
        proof {
            assert(d[i - start] == c);
            if i - start == k {
                assert(false);
            }
            let q = d.subrange(0, i - start + 1);
            assert(q.drop_last() =~= d.subrange(0, i - start));
            assert(q.last() == c);
        }
        let digit = (c as u32 - 48) as u64;
        match acc.checked_mul(10) {
            None => {
                proof {
                    let kk = d.subrange(0, k);
                    assert(forall|j: int| 0 <= j < kk.len() ==> is_dec_digit(#[trigger] kk[j])
                        ) by {
                        assert(forall|j: int| 0 <= j < kk.len() ==> kk[j] == d[j]);
                    }
                    lemma_digits_prefix_le(kk, i - start + 1);
                    assert(kk.subrange(0, i - start + 1) =~= d.subrange(0, i - start + 1));
                }
                return Err(IntTextError::PosOverflow);
            },
            Some(m) => match m.checked_add(digit) {
                None => {
                    proof {
                        let kk = d.subrange(0, k);
                        assert(forall|j: int| 0 <= j < kk.len() ==> is_dec_digit(
                            #[trigger] kk[j],
                        )) by {
                            assert(forall|j: int| 0 <= j < kk.len() ==> kk[j] == d[j]);
                        }
                        lemma_digits_prefix_le(kk, i - start + 1);
                        assert(kk.subrange(0, i - start + 1) =~= d.subrange(0, i - start + 1));
                    }
                    return Err(IntTextError::PosOverflow);
                },
                Some(v) => {
                    acc = v;
                },
            },
        }
        i = i + 1;
    }
    proof {
        assert(d.subrange(0, d.len() as int) =~= d);
    }
    Ok(acc)
}

/// The start time that `/proc/<pid>/stat` records for the process.
pub fn proc_start_time(stat: &str) -> (r: Result<u64, ProcStatError>)
    ensures
        r == proc_start_time_spec(stat@),
{
    let len = stat.unicode_len();
    let mut close: usize = len;
    while close > 0 && stat.get_char(close - 1) != ')'
        invariant
            len == stat@.len(),
            close <= len,
            last_index_of(stat@, ')', close as int) == last_index_of(stat@, ')', len as int),
        decreases close,
    {
        close = close - 1;
    }
    if close == 0 {
        return Err(ProcStatError::NoCommEnd);
    }
    let mut pos: usize = close;
    let mut left: usize = 19;
    loop
        invariant
            len == stat@.len(),
            0 < close <= pos <= len,
            last_index_of(stat@, ')', len as int) == close - 1,
            left <= 19,
            ws_field(stat@, pos as int, left as nat) == ws_field(stat@, close as int, 19),
        decreases left,
    {
        let mut a: usize = pos;
        while a < len && crate::text::is_whitespace(stat.get_char(a))
            invariant
                len == stat@.len(),
                pos <= a <= len,
                skip_ws_from(stat@, a as int) == skip_ws_from(stat@, pos as int),
            decreases len - a,
        {
            a = a + 1;
        }
        if a >= len {
            return Err(ProcStatError::MissingStartTime);
        }
        let mut b: usize = a;
        while b < len && !crate::text::is_whitespace(stat.get_char(b))
            invariant
                len == stat@.len(),
                a <= b <= len,
                word_end_from(stat@, b as int) == word_end_from(stat@, a as int),
            decreases len - b,
        {
            b = b + 1;
        }
        if left == 0 {
            return match u64_parse_at(stat, a, b) {
                Ok(v) => Ok(v),
                Err(e) => Err(ProcStatError::StartTime(e)),
            };
        }
        pos = b;
        left = left - 1;
    }
}

/// `EPERM`: the process exists but belongs to another user.
pub const EPERM: i32 = 1;

/// `kill(pid, 0)`: success, or a refusal for want of permission, proves the process exists.
pub fn kill_probe_means_exists(kill_result: i32, os_error: Option<i32>) -> (r: bool)
    ensures
        r == (kill_result == 0 || os_error == Some(EPERM)),
{
    kill_result == 0 || match os_error {
        Some(code) => code == EPERM,
        None => false,
    }
}

/// What `std::num::ParseIntError` says of each kind.
pub open spec fn int_error_text(e: IntTextError) -> Seq<char> {
    match e {
        IntTextError::Empty => "cannot parse integer from empty string"@,
        IntTextError::InvalidDigit => "invalid digit found in string"@,
        IntTextError::PosOverflow => "number too large to fit in target type"@,
    }
}

pub open spec fn proc_stat_message(pid: nat, e: ProcStatError) -> Seq<char> {
    match e {
        ProcStatError::NoCommEnd => "invalid /proc stat for process "@ + crate::text::dec_text(pid),
        ProcStatError::MissingStartTime => "missing start time for process "@
            + crate::text::dec_text(pid),
        ProcStatError::StartTime(kind) => int_error_text(kind),
    }
}

/// The error a failed `/proc/<pid>/stat` read reports.
pub fn proc_stat_error_message(pid: u32, e: ProcStatError) -> (r: String)
    ensures
        r@ == proc_stat_message(pid as nat, e),
{
    let mut msg = String::new();
    match e {
        ProcStatError::NoCommEnd => {
            msg.append("invalid /proc stat for process ");
            crate::text::push_decimal(&mut msg, pid as u64);
        },
        ProcStatError::MissingStartTime => {
            msg.append("missing start time for process ");
            crate::text::push_decimal(&mut msg, pid as u64);
        },
        ProcStatError::StartTime(IntTextError::Empty) => {
            msg.append("cannot parse integer from empty string");
        },
        ProcStatError::StartTime(IntTextError::InvalidDigit) => {
            msg.append("invalid digit found in string");
        },
        ProcStatError::StartTime(IntTextError::PosOverflow) => {
            msg.append("number too large to fit in target type");
        },
    }
    msg
}

} // verus!
