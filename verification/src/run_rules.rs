//! The rules a worker and a running task follow: dispatching claimed runs,
//! settling their outcome, normalising worker options, and the decisions of
//! steps that wait on events and child tasks.

use crate::error::{full_message, str_equal, AbsurdError, TaskStateError};
use crate::options::{WorkBatchOptions, WorkerOptions};
use crate::span::Span;
use crate::text::{debug_quote, debug_quoted, decimal, decimal_string, join2, join3};
use crate::util::{duration_seconds, rounded_seconds};
use std::hash::Hasher;
use vstd::prelude::*;
use vstd::string::StringSliceAdditionalSpecFns;

verus! {

/// The 64-bit FNV-1a hash of `bytes`: start from the offset basis, and for
/// each byte xor it in and multiply by the FNV prime, modulo 2^64.
pub open spec fn fnv1a_64(bytes: Seq<u8>) -> u64
    decreases bytes.len(),
{
    if bytes.len() == 0 {
        0xcbf29ce484222325
    } else {
        (((fnv1a_64(bytes.drop_last()) ^ (bytes.last() as u64)) as nat * 0x100000001b3nat)
            % 0x1_0000_0000_0000_0000nat) as u64
    }
}

/// The hash `fnv::FnvHasher` gives for `bytes` written once into a default
/// hasher: 64-bit FNV-1a, as `FnvHasher::write` computes it byte by byte.
#[verifier::external_body]
fn fnv_hash(bytes: &[u8]) -> (h: u64)
    ensures
        h == fnv1a_64(bytes@),
{
    let mut hasher = fnv::FnvHasher::default();
    hasher.write(bytes);
    hasher.finish()
}

/// How long a run of an unregistered task is deferred: 15 seconds plus a
/// jitter of 0 to 15 seconds taken from the hash of the run id, so that
/// workers do not all retry the same run at once.
pub open spec fn unknown_task_delay_secs(run_id: &str) -> nat {
    (15 + (fnv1a_64(run_id.spec_bytes()) as u32) % 16) as nat
}

/// The delay before a claimed run of an unregistered task is retried.
pub fn unknown_task_defer_delay(run_id: &str) -> (d: Span)
    ensures
        d@ == unknown_task_delay_secs(run_id) * 1_000_000_000,
{
    let h = fnv_hash(run_id.as_bytes());
    let jitter = (h as u32) % 16;
    Span::from_secs(15 + jitter as u64)
}

/// What a worker does with a claimed run.
#[derive(Debug)]
pub enum Dispatch {
    /// No handler is registered for the task: put the run off.
    DeferUnknown,
    /// The task is registered for another queue: fail the run with this
    /// message.
    RejectQueueMismatch(String),
    /// Run the registered handler.
    Run,
}

/// The message of a run whose task is registered for another queue.
pub open spec fn queue_mismatch_run_message(task_name: Seq<char>) -> Seq<char> {
    "misconfigured task "@ + debug_quoted(task_name) + " (queue mismatch)"@
}

/// Decide what to do with a claimed run of `task_name`, given the queue its
/// registration names (if it is registered) and the worker's queue.
pub fn dispatch_claimed(registered_queue: Option<&str>, worker_queue: &str, task_name: &str) -> (r:
    Dispatch)
    ensures
        match registered_queue {
            None => r is DeferUnknown,
            Some(q) => if q@ == worker_queue@ {
                r is Run
            } else {
                r matches Dispatch::RejectQueueMismatch(m) && m@ == queue_mismatch_run_message(
                    task_name@,
                )
            },
        },
{
    match registered_queue {
        None => Dispatch::DeferUnknown,
        Some(q) => if str_equal(q, worker_queue) {
            Dispatch::Run
        } else {
            let quoted = debug_quote(task_name);
            Dispatch::RejectQueueMismatch(join3("misconfigured task ", quoted.as_str(), " (queue mismatch)"))
        },
    }
}

/// The message recorded when an unregistered task's run could not be put
/// off: the task's name and id, and what went wrong.
pub open spec fn defer_failure_message(task_name: Seq<char>, task_id: Seq<char>, detail: Seq<char>) -> Seq<char> {
    "failed to defer unknown task "@ + debug_quoted(task_name) + " ("@ + task_id + "): "@ + detail
}

/// The message recorded when an unregistered task's run could not be put off.
pub fn defer_failure_text(task_name: &str, task_id: &str, detail: &str) -> (r: String)
    ensures
        r@ == defer_failure_message(task_name@, task_id@, detail@),
{
    let quoted = debug_quote(task_name);
    String::from_str("failed to defer unknown task ").concat(quoted.as_str()).concat(" (").concat(
        task_id,
    ).concat("): ").concat(detail)
}

/// How a claimed run ends once its handler has returned.
#[derive(Debug)]
pub enum RunAction<V> {
    /// Record the handler's result as the run's result.
    Complete(V),
    /// Leave the run as it is: it suspended itself, or the server already
    /// ended it.
    Leave,
    /// Record a failure (`TaskError`) with this message.
    Fail(String),
}

/// Decide how a run ends from its handler's outcome: a value completes it;
/// a suspension or a terminal state signalled by the server leaves it; any
/// other error fails it with the error's message.
pub fn settle_run<V>(result: Result<V, AbsurdError>) -> (r: RunAction<V>)
    ensures
        match result {
            Ok(v) => r == RunAction::Complete(v),
            Err(AbsurdError::Suspended) => r is Leave,
            Err(AbsurdError::TaskState(_)) => r is Leave,
            Err(e) => r matches RunAction::Fail(m) && m@ == full_message(e),
        },
{
    match result {
        Ok(v) => RunAction::Complete(v),
        Err(AbsurdError::Suspended) => RunAction::Leave,
        Err(AbsurdError::TaskState(TaskStateError::Cancelled)) => RunAction::Leave,
        Err(AbsurdError::TaskState(TaskStateError::AlreadyFailed)) => RunAction::Leave,
        Err(e) => RunAction::Fail(e.message()),
    }
}

/// Settle an error from recording a run's result: a terminal state that the
/// server signals means there is nothing left to do; any other error stands.
pub fn settle_completion_error(err: AbsurdError) -> (r: Result<(), AbsurdError>)
    ensures
        err is TaskState ==> r is Ok,
        !(err is TaskState) ==> r == Err::<(), AbsurdError>(err),
{
    match err {
        AbsurdError::TaskState(_) => Ok(()),
        e => Err(e),
    }
}

/// What became of starting a run's context.
#[derive(Debug)]
pub enum StartFailure {
    /// The run's headers are unusable: fail the run with this message.
    FailRun(String),
    /// Any other error stops the worker's pass.
    Abort(AbsurdError),
}

/// Settle an error from starting a run's context.
pub fn settle_start_error(err: AbsurdError) -> (r: StartFailure)
    ensures
        match err {
            AbsurdError::InvalidTaskHeaders(m) => r matches StartFailure::FailRun(s) && s@ == m@,
            e => r == StartFailure::Abort(e),
        },
{
    match err {
        AbsurdError::InvalidTaskHeaders(m) => StartFailure::FailRun(m),
        e => StartFailure::Abort(e),
    }
}

/// The JSON shape of a claimed run's headers.
#[derive(Debug, Clone, Copy, PartialEq, Eq)]
pub enum HeaderShape {
    Missing,
    Null,
    Object,
    OtherValue,
}

/// Whether a run's headers are used as given (`true`) or replaced by an
/// empty object (`false`); headers that are present but not an object are
/// refused.
pub fn header_policy(shape: HeaderShape) -> (r: Result<bool, AbsurdError>)
    ensures
        match shape {
            HeaderShape::Object => r == Ok::<bool, AbsurdError>(true),
            HeaderShape::Null | HeaderShape::Missing => r == Ok::<bool, AbsurdError>(false),
            HeaderShape::OtherValue => r matches Err(AbsurdError::InvalidTaskHeaders(m)) && m@
                == "headers payload must be a JSON object"@,
        },
{
    match shape {
        HeaderShape::Object => Ok(true),
        HeaderShape::Null | HeaderShape::Missing => Ok(false),
        HeaderShape::OtherValue => Err(
            AbsurdError::InvalidTaskHeaders(String::from_str("headers payload must be a JSON object")),
        ),
    }
}

/// The step name given, or `prefix` followed by `name`.
pub fn step_name_or(given: Option<String>, prefix: &str, name: &str) -> (r: String)
    ensures
        match given {
            Some(s) => r@ == s@,
            None => r@ == prefix@ + name@,
        },
{
    match given {
        Some(s) => s,
        None => join2(prefix, name),
    }
}

/// A task cannot wait on tasks of its own queue: that would tie up the
/// workers it needs.
pub fn check_child_queue(child_queue: &str, own_queue: &str) -> (r: Result<(), AbsurdError>)
    ensures
        child_queue@ == own_queue@ ==> (r matches Err(AbsurdError::Other(m)) && m@
            == "TaskContext.await_task_result cannot wait on tasks in the same queue (deadlocks workers). Spawn the child in a different queue."@),
        child_queue@ != own_queue@ ==> r is Ok,
{
    if str_equal(child_queue, own_queue) {
        Err(
            AbsurdError::Other(
                String::from_str(
                    "TaskContext.await_task_result cannot wait on tasks in the same queue (deadlocks workers). Spawn the child in a different queue.",
                ),
            ),
        )
    } else {
        Ok(())
    }
}

/// The timeout argument of `absurd.await_event`: none waits indefinitely,
/// 0 does not block, a positive number of seconds bounds the wait.
pub fn event_timeout_arg(timeout: Option<Span>) -> (r: Option<i32>)
    ensures
        match timeout {
            None => r is None,
            Some(d) => if d@ == 0 {
                r == Some(0i32)
            } else {
                r matches Some(n) && n == rounded_seconds(d@)
            },
        },
{
    match timeout {
        None => None,
        Some(d) => if d.is_zero() {
            Some(0)
        } else {
            Some(duration_seconds(d))
        },
    }
}

/// The message of an event wait that ran out of time.
pub open spec fn event_timeout_message(event_name: Seq<char>) -> Seq<char> {
    "timed out waiting for event "@ + debug_quoted(event_name)
}

/// Settle the answer of `absurd.await_event`: suspend when the server says
/// so, time out when no payload came, else deliver the payload.
pub fn settle_event_wait(should_suspend: bool, has_payload: bool, event_name: &str) -> (r: Result<
    (),
    AbsurdError,
>)
    ensures
        should_suspend ==> r matches Err(AbsurdError::Suspended),
        !should_suspend && !has_payload ==> (r matches Err(AbsurdError::Timeout(m)) && m@
            == event_timeout_message(event_name@)),
        !should_suspend && has_payload ==> r is Ok,
{
    if should_suspend {
        return Err(AbsurdError::Suspended);
    }
    if !has_payload {
        let quoted = debug_quote(event_name);
        return Err(AbsurdError::Timeout(join2("timed out waiting for event ", quoted.as_str())));
    }
    Ok(())
}

/// The batch options a worker pass runs with: an empty claim timeout means
/// 120 seconds, a batch size below one means one, an empty worker id means
/// `worker`.
pub fn normalize_batch(options: WorkBatchOptions) -> (r: WorkBatchOptions)
    ensures
        r.claim_timeout@ == if options.claim_timeout@ == 0 {
            120_000_000_000
        } else {
            options.claim_timeout@
        },
        r.batch_size == if options.batch_size <= 0 {
            1
        } else {
            options.batch_size
        },
        r.worker_id@ == if options.worker_id@.len() == 0 {
            "worker"@
        } else {
            options.worker_id@
        },
{
    let claim_timeout = if options.claim_timeout.is_zero() {
        Span::from_secs(120)
    } else {
        options.claim_timeout
    };
    let batch_size = if options.batch_size <= 0 {
        1
    } else {
        options.batch_size
    };
    let worker_id = if options.worker_id.as_str().is_empty() {
        String::from_str("worker")
    } else {
        options.worker_id
    };
    WorkBatchOptions { worker_id, claim_timeout, batch_size }
}

/// A worker's settings once its options are normalised.
#[derive(Debug, Clone)]
pub struct WorkerConfig {
    pub batch: WorkBatchOptions,
    pub concurrency: i32,
    pub poll_interval: Span,
    pub fatal_on_lease_timeout: bool,
}

/// The worker id used when none is given: the host name (or `worker`),
/// a colon, and the process id.
pub open spec fn default_worker_name(host: Option<Seq<char>>, pid: nat) -> Seq<char> {
    let h = match host {
        Some(h) => h,
        None => "worker"@,
    };
    h + ":"@ + decimal(pid)
}

/// The worker id used when none is given, from the host name (if it could
/// be read) and the process id.
pub fn default_worker_id(host: Option<String>, pid: u32) -> (r: String)
    ensures
        r@ == default_worker_name(
            match host {
                Some(h) => Some(h@),
                None => None,
            },
            pid as nat,
        ),
{
    let h = match host {
        Some(h) => h,
        None => String::from_str("worker"),
    };
    let digits = decimal_string(pid as u64);
    join3(h.as_str(), ":", digits.as_str())
}

/// Normalise worker options: the given worker id or `fallback_worker_id`;
/// a concurrency below one means one; the batch size defaults to the
/// concurrency.
pub fn normalize_worker(options: WorkerOptions, fallback_worker_id: String) -> (r: WorkerConfig)
    ensures
        r.batch.worker_id@ == match options.worker_id {
            Some(w) => w@,
            None => fallback_worker_id@,
        },
        r.concurrency == if options.concurrency <= 0 {
            1
        } else {
            options.concurrency
        },
        r.batch.batch_size == match options.batch_size {
            Some(n) => n,
            None => r.concurrency,
        },
        r.batch.claim_timeout@ == options.claim_timeout@,
        r.poll_interval@ == options.poll_interval@,
        r.fatal_on_lease_timeout == options.fatal_on_lease_timeout,
{
    let worker_id = match options.worker_id {
        Some(w) => w,
        None => fallback_worker_id,
    };
    let concurrency = if options.concurrency <= 0 {
        1
    } else {
        options.concurrency
    };
    let batch_size = match options.batch_size {
        Some(n) => n,
        None => concurrency,
    };
    WorkerConfig {
        batch: WorkBatchOptions { worker_id, claim_timeout: options.claim_timeout, batch_size },
        concurrency,
        poll_interval: options.poll_interval,
        fatal_on_lease_timeout: options.fatal_on_lease_timeout,
    }
}

/// How many tasks a worker claims: its batch size, but no more than it has
/// free slots for.
pub fn claim_size(batch_size: i32, free_slots: i32) -> (r: i32)
    ensures
        r == if batch_size <= free_slots {
            batch_size
        } else {
            free_slots
        },
{
    if batch_size <= free_slots {
        batch_size
    } else {
        free_slots
    }
}

/// What the worker loop learns at each turn.
#[derive(Debug, Clone, Copy, PartialEq, Eq, Structural)]
pub enum WorkerEvent {
    /// The loop is at the top of a turn: whether shutdown was signalled, and
    /// how many run slots are free.
    Ready { shutting_down: bool, free_slots: i32 },
    /// A claim came back with this many runs.
    Claimed(usize),
    /// A claim failed (the error is reported to the worker's callback).
    ClaimFailed,
}

/// What the worker loop does next.
#[derive(Debug, Clone, Copy, PartialEq, Eq, Structural)]
pub enum WorkerAction {
    /// Stop claiming, and wait for the runs in flight.
    Stop,
    /// Sleep the poll interval (or until shutdown), then start a new turn.
    Pause,
    /// Claim up to this many runs.
    Claim(i32),
    /// Start the claimed runs, each once a slot is free.
    Run,
}

/// The worker loop's decision for `event`, with batch size `batch_size`.
pub open spec fn worker_decision(batch_size: i32, event: WorkerEvent) -> WorkerAction {
    match event {
        WorkerEvent::Ready { shutting_down, free_slots } => if shutting_down {
            WorkerAction::Stop
        } else if free_slots == 0 {
            WorkerAction::Pause
        } else {
            WorkerAction::Claim(if batch_size <= free_slots { batch_size } else { free_slots })
        },
        WorkerEvent::Claimed(n) => if n == 0 {
            WorkerAction::Pause
        } else {
            WorkerAction::Run
        },
        WorkerEvent::ClaimFailed => WorkerAction::Pause,
    }
}

/// One turn of the worker loop: stop once shutdown is signalled; with no
/// free slot, or after an empty or failed claim, pause for the poll
/// interval; else claim as many runs as the batch size and the free slots
/// allow, and run what was claimed.
pub fn worker_step(batch_size: i32, event: WorkerEvent) -> (r: WorkerAction)
    ensures
        r == worker_decision(batch_size, event),
{
    match event {
        WorkerEvent::Ready { shutting_down, free_slots } => {
            if shutting_down {
                WorkerAction::Stop
            } else if free_slots == 0 {
                WorkerAction::Pause
            } else {
                WorkerAction::Claim(claim_size(batch_size, free_slots))
            }
        },
        WorkerEvent::Claimed(n) => {
            if n == 0 {
                WorkerAction::Pause
            } else {
                WorkerAction::Run
            }
        },
        WorkerEvent::ClaimFailed => WorkerAction::Pause,
    }
}

/// With a batch size of at least one, every claim the worker makes asks for
/// at least one run and for no more runs than it has free slots, so the
/// runs in flight never exceed the worker's concurrency.
pub proof fn law_claims_fit_free_slots(batch_size: i32, shutting_down: bool, free_slots: i32)
    requires
        batch_size >= 1,
        free_slots >= 0,
    ensures
        worker_decision(batch_size, WorkerEvent::Ready { shutting_down, free_slots }) matches WorkerAction::Claim(n)
            ==> 1 <= n <= free_slots,
        !shutting_down && free_slots >= 1 ==> worker_decision(
            batch_size,
            WorkerEvent::Ready { shutting_down, free_slots },
        ) is Claim,
{
}

/// The worker's run slots: how many runs may be in flight at once, and how
/// many are. No run starts without a free slot, so the runs in flight never
/// exceed the capacity.
pub struct RunSlots {
    capacity: i32,
    running: i32,
}

impl RunSlots {
    /// At least one slot, and never more runs in flight than slots.
    #[verifier::type_invariant]
    spec fn within_capacity(self) -> bool {
        1 <= self.capacity && 0 <= self.running <= self.capacity
    }

    /// How many runs may be in flight at once.
    pub closed spec fn capacity(&self) -> int {
        self.capacity as int
    }

    /// How many runs are in flight.
    pub closed spec fn running(&self) -> int {
        self.running as int
    }

    /// Slots for a worker of concurrency `concurrency` (below one means
    /// one), none taken.
    pub fn new(concurrency: i32) -> (r: RunSlots)
        ensures
            r.capacity() == if concurrency <= 0 { 1 } else { concurrency as int },
            r.running() == 0,
            1 <= r.capacity(),
    {
        RunSlots { capacity: if concurrency <= 0 { 1 } else { concurrency }, running: 0 }
    }

    /// How many slots are free.
    pub fn free(&self) -> (r: i32)
        ensures
            r == self.capacity() - self.running(),
            r >= 0,
    {
        proof {
            use_type_invariant(self);
        }
        self.capacity - self.running
    }

    /// Take a slot for a run if one is free; `false` leaves the slots as
    /// they were.
    pub fn try_start(&mut self) -> (r: bool)
        ensures
            r == (old(self).running() < old(self).capacity()),
            final(self).capacity() == old(self).capacity(),
            final(self).running() == old(self).running() + if r { 1int } else { 0int },
            0 <= final(self).running() <= final(self).capacity(),
    {
        proof {
            use_type_invariant(&*self);
        }
        if self.running < self.capacity {
            self.running = self.running + 1;
            true
        } else {
            false
        }
    }

    /// Give back the slot of a run that ended.
    pub fn finish(&mut self)
        ensures
            final(self).capacity() == old(self).capacity(),
            final(self).running() == if old(self).running() > 0 {
                old(self).running() - 1
            } else {
                0
            },
            0 <= final(self).running() <= final(self).capacity(),
    {
        proof {
            use_type_invariant(&*self);
        }
        if self.running > 0 {
            self.running = self.running - 1;
        }
    }
}

/// Every claimed run is started: after a claim that came back with at least
/// one run the worker runs them, whatever its batch size; only an empty or
/// failed claim makes it pause, and a signalled shutdown always stops it.
pub proof fn law_claimed_runs_are_started(batch_size: i32, n: usize, free_slots: i32)
    ensures
        n >= 1 ==> worker_decision(batch_size, WorkerEvent::Claimed(n)) == WorkerAction::Run,
        n == 0 ==> worker_decision(batch_size, WorkerEvent::Claimed(n)) == WorkerAction::Pause,
        worker_decision(batch_size, WorkerEvent::ClaimFailed) == WorkerAction::Pause,
        worker_decision(batch_size, WorkerEvent::Ready { shutting_down: true, free_slots })
            == WorkerAction::Stop,
{
}

} // verus!
