//! Timing rules: leases, heartbeat cadence and the back-off used while
//! polling for another task's result.

use crate::error::AbsurdError;
use crate::span::{max_span_nanos, Span};
use crate::text::{debug_quote, debug_quoted, join2};
use vstd::arithmetic::power2::{lemma_pow2_unfold, pow2};
use vstd::prelude::*;

verus! {

/// The default claim lease: 120 seconds, in nanoseconds.
pub open spec fn default_claim_nanos() -> nat {
    120_000_000_000
}

/// The first back-off delay: 50 milliseconds, in nanoseconds.
pub open spec fn initial_backoff_nanos() -> nat {
    50_000_000
}

/// The longest back-off delay: one second, in nanoseconds.
pub open spec fn max_backoff_nanos() -> nat {
    1_000_000_000
}

/// The shortest heartbeat interval: 500 milliseconds, in nanoseconds.
pub open spec fn min_heartbeat_nanos() -> nat {
    500_000_000
}

/// The default claim lease of 120 seconds.
pub fn default_claim_timeout() -> (s: Span)
    ensures
        s@ == default_claim_nanos(),
{
    Span::from_secs(120)
}

/// The lease a run holds: the claim timeout, or the default when that is
/// empty.
pub fn effective_lease(claim_timeout: Span) -> (s: Span)
    ensures
        s@ == if claim_timeout@ == 0 {
            default_claim_nanos()
        } else {
            claim_timeout@
        },
{
    if claim_timeout.is_zero() {
        default_claim_timeout()
    } else {
        claim_timeout
    }
}

/// The lease a heartbeat asks for: `requested`, or the run's claim timeout
/// when `requested` is empty.
pub fn heartbeat_lease(requested: Span, claim_timeout: Span) -> (s: Span)
    ensures
        s@ == if requested@ == 0 {
            claim_timeout@
        } else {
            requested@
        },
{
    if requested.is_zero() {
        claim_timeout
    } else {
        requested
    }
}

/// How often a task that waits on another task heartbeats: half its lease,
/// but never more often than every 500 milliseconds.
pub fn heartbeat_interval(claim_timeout: Span) -> (s: Span)
    ensures
        s@ == if claim_timeout@ / 2 >= min_heartbeat_nanos() {
            claim_timeout@ / 2
        } else {
            min_heartbeat_nanos()
        },
{
    claim_timeout.half().max(Span::from_millis(500))
}

/// The first back-off delay, 50 milliseconds.
pub fn initial_backoff() -> (s: Span)
    ensures
        s@ == initial_backoff_nanos(),
{
    Span::from_millis(50)
}

/// The back-off delay after `delay`: twice as long, capped at one second.
pub fn next_backoff(delay: Span) -> (s: Span)
    requires
        2 * delay@ <= max_span_nanos(),
    ensures
        s@ == if 2 * delay@ <= max_backoff_nanos() {
            2 * delay@
        } else {
            max_backoff_nanos()
        },
{
    let doubled = match delay.checked_double() {
        Some(d) => d,
        None => Span::from_secs(1),
    };
    doubled.min(Span::from_secs(1))
}

/// The back-off delay before the `n`-th retry poll (counting from 0):
/// 50 milliseconds doubled `n` times, capped at one second.
pub open spec fn backoff_after(n: nat) -> nat {
    if initial_backoff_nanos() * pow2(n) <= max_backoff_nanos() {
        initial_backoff_nanos() * pow2(n)
    } else {
        max_backoff_nanos()
    }
}

/// Starting from the initial delay and applying `next_backoff` `n` times
/// gives `backoff_after(n)`: the delay doubles from 50 milliseconds and
/// stays at one second once it gets there.
pub proof fn law_backoff_doubles_to_cap(n: nat)
    ensures
        n == 0 ==> backoff_after(n) == initial_backoff_nanos(),
        n > 0 ==> backoff_after(n) == if 2 * backoff_after((n - 1) as nat)
            <= max_backoff_nanos() {
            2 * backoff_after((n - 1) as nat)
        } else {
            max_backoff_nanos()
        },
        backoff_after(n) <= max_backoff_nanos(),
        backoff_after(n) >= initial_backoff_nanos(),
{
    vstd::arithmetic::power2::lemma_pow2_pos(n);
    if n == 0 {
        assert(pow2(0) == 1) by {
            vstd::arithmetic::power2::lemma2_to64();
        }
    } else {
        lemma_pow2_unfold(n);
        vstd::arithmetic::power2::lemma_pow2_pos((n - 1) as nat);
        let p = pow2((n - 1) as nat);
        assert(initial_backoff_nanos() * pow2(n) == 2 * (initial_backoff_nanos() * p)) by (
        nonlinear_arith)
            requires
                pow2(n) == 2 * p,
        ;
    }
}

/// What to do after a poll found the awaited task not yet finished.
pub enum Pause {
    /// Sleep this long, then poll again.
    Sleep(Span),
    /// The timeout has passed: stop waiting.
    Expired,
}

/// Whether a wait with `timeout` that has run for `elapsed` must stop:
/// an empty timeout never waits, and a wait stops once its timeout is
/// reached. `None` waits forever.
pub fn wait_expired(timeout: Option<Span>, elapsed: Span) -> (r: bool)
    ensures
        r == match timeout {
            None => false,
            Some(t) => t@ == 0 || elapsed@ >= t@,
        },
{
    match timeout {
        None => false,
        Some(t) => t.is_zero() || t.le(&elapsed),
    }
}

/// The pause before the next poll: the back-off `delay`, cut to the time
/// left before the timeout; `Expired` when no time is left.
pub fn next_pause(delay: Span, timeout: Option<Span>, elapsed: Span) -> (r: Pause)
    ensures
        match timeout {
            None => r matches Pause::Sleep(s) && s@ == delay@,
            Some(t) => if elapsed@ >= t@ {
                r is Expired
            } else {
                r matches Pause::Sleep(s) && s@ == if delay@ <= t@ - elapsed@ {
                    delay@
                } else {
                    (t@ - elapsed@) as nat
                }
            },
        },
{
    match timeout {
        None => Pause::Sleep(delay),
        Some(t) => {
            let remaining = t.saturating_sub(&elapsed);
            if remaining.is_zero() {
                Pause::Expired
            } else {
                Pause::Sleep(delay.min(remaining))
            }
        },
    }
}

/// No pause is longer than the back-off delay, and none runs past the
/// timeout.
pub proof fn law_pause_within_limits(delay: nat, timeout: Option<nat>, elapsed: nat, pause: nat)
    requires
        match timeout {
            None => pause == delay,
            Some(t) => elapsed < t && pause == if delay <= t - elapsed {
                delay
            } else {
                (t - elapsed) as nat
            },
        },
    ensures
        pause <= delay,
        timeout matches Some(t) ==> elapsed + pause <= t,
{
}

/// The message of a wait on task `task_id` that ran out of time.
pub open spec fn task_wait_timeout_message(task_id: Seq<char>) -> Seq<char> {
    "timed out waiting for task "@ + debug_quoted(task_id)
}

/// The error of a wait on task `task_id` that ran out of time.
pub fn task_wait_timeout(task_id: &str) -> (r: AbsurdError)
    ensures
        r matches AbsurdError::Timeout(m) && m@ == task_wait_timeout_message(task_id@),
{
    let quoted = debug_quote(task_id);
    AbsurdError::Timeout(join2("timed out waiting for task ", quoted.as_str()))
}

/// What one poll of an awaited task's result found.
#[derive(Debug, Clone, Copy, PartialEq, Eq, Structural)]
pub enum PollOutcome {
    /// The task does not exist.
    Missing,
    /// The task has not finished yet.
    Pending,
    /// The task has reached a terminal state.
    Terminal,
}

/// What the awaiting loop does after a poll.
#[derive(Debug, Clone, Copy, PartialEq, Eq, Structural)]
pub enum PollAction {
    /// Fail with `TaskNotFound`.
    NotFound,
    /// Return the terminal snapshot.
    Done,
    /// Fail with the wait timeout.
    TimedOut,
    /// Run the before-sleep hook, then pause and poll again.
    BeforeSleep,
}

/// Decide what follows a poll: a missing task is not found, a terminal one
/// is done, and a pending one times out once the wait has expired and
/// otherwise waits for the next poll.
pub fn poll_decision(outcome: PollOutcome, timeout: Option<Span>, elapsed: Span) -> (r: PollAction)
    ensures
        r == match outcome {
            PollOutcome::Missing => PollAction::NotFound,
            PollOutcome::Terminal => PollAction::Done,
            PollOutcome::Pending => if match timeout {
                None => false,
                Some(t) => t@ == 0 || elapsed@ >= t@,
            } {
                PollAction::TimedOut
            } else {
                PollAction::BeforeSleep
            },
        },
{
    match outcome {
        PollOutcome::Missing => PollAction::NotFound,
        PollOutcome::Terminal => PollAction::Done,
        PollOutcome::Pending => if wait_expired(timeout, elapsed) {
            PollAction::TimedOut
        } else {
            PollAction::BeforeSleep
        },
    }
}

/// What a wait's hook does about heartbeats at one of its turns.
#[derive(Debug, Clone, Copy)]
pub enum HeartbeatTurn {
    /// The next heartbeat is not due yet: do nothing.
    Wait,
    /// Send a heartbeat now; the next one is due at this time.
    Beat(Span),
}

/// Throttle heartbeats while a run waits: at `elapsed` into the wait, with
/// the next heartbeat due at `next_due`, a heartbeat is sent once it is due,
/// and the next one is then due `interval` later.
pub fn heartbeat_turn(elapsed: Span, next_due: Span, interval: Span) -> (r: HeartbeatTurn)
    ensures
        elapsed@ < next_due@ ==> r is Wait,
        elapsed@ >= next_due@ ==> (r matches HeartbeatTurn::Beat(n) && n@ == if elapsed@
            + interval@ <= max_span_nanos() {
            elapsed@ + interval@
        } else {
            max_span_nanos()
        }),
{
    if !next_due.le(&elapsed) {
        HeartbeatTurn::Wait
    } else {
        HeartbeatTurn::Beat(elapsed.saturating_add(&interval))
    }
}

} // verus!
