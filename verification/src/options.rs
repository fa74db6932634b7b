//! Option and value types of the SDK, and their textual names.

use crate::error::str_equal;
use crate::span::Span;
use vstd::prelude::*;

verus! {

/// The kind of a retry strategy honored by Absurd's spawn paths.
#[derive(Debug, Clone, Copy, PartialEq, Eq)]
pub enum RetryStrategyKind {
    Exponential,
    Linear,
    Fixed,
    /// A strategy the schema knows by this name.
    Other(&'static str),
}

/// The schema's name for a retry-strategy kind.
pub open spec fn retry_kind_name(k: RetryStrategyKind) -> Seq<char> {
    match k {
        RetryStrategyKind::Exponential => "exponential"@,
        RetryStrategyKind::Linear => "linear"@,
        RetryStrategyKind::Fixed => "fixed"@,
        RetryStrategyKind::Other(name) => name@,
    }
}

impl RetryStrategyKind {
    /// The schema's name for this kind.
    pub fn as_str(&self) -> (r: &'static str)
        ensures
            r@ == retry_kind_name(*self),
    {
        match self {
            RetryStrategyKind::Exponential => "exponential",
            RetryStrategyKind::Linear => "linear",
            RetryStrategyKind::Fixed => "fixed",
            RetryStrategyKind::Other(name) => name,
        }
    }
}

/// Optional cancellation envelope; values in seconds.
#[derive(Debug, Clone, Copy, Default, PartialEq, Eq, Structural)]
pub struct CancellationPolicy {
    pub max_duration: Option<i64>,
    pub max_delay: Option<i64>,
}

/// Outcome of a spawn (matches the schema's `spawn_task` return).
#[derive(Debug, Clone)]
pub struct SpawnResult {
    pub task_id: String,
    pub run_id: String,
    pub attempt: i32,
    pub created: bool,
}

/// How a queue's tables are laid out.
#[derive(Debug, Clone, Copy, PartialEq, Eq, Structural)]
pub enum QueueStorageMode {
    Unpartitioned,
    Partitioned,
}

/// The schema's name for a storage mode.
pub open spec fn storage_mode_name(m: QueueStorageMode) -> Seq<char> {
    match m {
        QueueStorageMode::Unpartitioned => "unpartitioned"@,
        QueueStorageMode::Partitioned => "partitioned"@,
    }
}

impl QueueStorageMode {
    /// The schema's name for this mode.
    pub fn as_str(self) -> (r: &'static str)
        ensures
            r@ == storage_mode_name(self),
    {
        match self {
            QueueStorageMode::Unpartitioned => "unpartitioned",
            QueueStorageMode::Partitioned => "partitioned",
        }
    }
}

impl Default for QueueStorageMode {
    fn default() -> (r: QueueStorageMode)
        ensures
            r == QueueStorageMode::Unpartitioned,
    {
        QueueStorageMode::Unpartitioned
    }
}

/// When a queue's aged partitions are detached.
#[derive(Debug, Clone, Copy, PartialEq, Eq, Structural)]
pub enum QueueDetachMode {
    /// Never detach partitions (the schema's `none`).
    Never,
    Empty,
}

/// The schema's name for a detach mode.
pub open spec fn detach_mode_name(m: QueueDetachMode) -> Seq<char> {
    match m {
        QueueDetachMode::Never => "none"@,
        QueueDetachMode::Empty => "empty"@,
    }
}

impl QueueDetachMode {
    /// The schema's name for this mode.
    pub fn as_str(self) -> (r: &'static str)
        ensures
            r@ == detach_mode_name(self),
    {
        match self {
            QueueDetachMode::Never => "none",
            QueueDetachMode::Empty => "empty",
        }
    }
}

/// Queue policy fields to set; `None` leaves a field as it is.
#[derive(Debug, Clone, Default)]
pub struct QueuePolicyOptions {
    pub partition_lookahead: Option<String>,
    pub partition_lookback: Option<String>,
    pub cleanup_ttl: Option<String>,
    pub cleanup_limit: Option<i32>,
    pub detach_mode: Option<QueueDetachMode>,
    pub detach_min_age: Option<String>,
}

/// Options for creating a queue.
#[derive(Debug, Clone, Default)]
pub struct CreateQueueOptions {
    pub storage_mode: QueueStorageMode,
    pub policy: QueuePolicyOptions,
}

/// A queue's persisted policy.
#[derive(Debug, Clone)]
pub struct QueuePolicy {
    pub queue_name: String,
    pub storage_mode: String,
    pub partition_lookahead: String,
    pub partition_lookback: String,
    pub cleanup_ttl: String,
    pub cleanup_limit: i32,
    pub detach_mode: String,
    pub detach_min_age: String,
}

/// Options for retrying a task.
#[derive(Debug, Clone, Default)]
pub struct RetryTaskOptions {
    pub max_attempts: Option<i32>,
    pub spawn_new: bool,
}

/// Options for awaiting an event.
#[derive(Debug, Clone, Default)]
pub struct AwaitEventOptions {
    pub step_name: Option<String>,
    /// `None` = wait indefinitely. An empty span is non-blocking: raise
    /// immediately if the event is not present. Otherwise the timeout.
    pub timeout: Option<Span>,
}

/// Options for awaiting another task's result.
#[derive(Debug, Clone, Default)]
pub struct AwaitTaskResultOptions {
    pub step_name: Option<String>,
    pub timeout: Option<Span>,
}

/// Options for processing a single batch of tasks.
#[derive(Debug, Clone)]
pub struct WorkBatchOptions {
    pub worker_id: String,
    pub claim_timeout: Span,
    pub batch_size: i32,
}

impl Default for WorkBatchOptions {
    fn default() -> (r: WorkBatchOptions)
        ensures
            r.worker_id@ == "worker"@,
            r.claim_timeout@ == 120_000_000_000,
            r.batch_size == 1,
    {
        WorkBatchOptions {
            worker_id: String::from_str("worker"),
            claim_timeout: Span::from_secs(120),
            batch_size: 1,
        }
    }
}

/// Options for the long-running worker loop.
#[derive(Debug, Clone)]
pub struct WorkerOptions {
    pub worker_id: Option<String>,
    pub claim_timeout: Span,
    pub batch_size: Option<i32>,
    pub concurrency: i32,
    pub poll_interval: Span,
    pub fatal_on_lease_timeout: bool,
}

impl Default for WorkerOptions {
    fn default() -> (r: WorkerOptions)
        ensures
            r.worker_id is None,
            r.claim_timeout@ == 120_000_000_000,
            r.batch_size is None,
            r.concurrency == 1,
            r.poll_interval@ == 250_000_000,
            r.fatal_on_lease_timeout,
    {
        WorkerOptions {
            worker_id: None,
            claim_timeout: Span::from_secs(120),
            batch_size: None,
            concurrency: 1,
            poll_interval: Span::from_millis(250),
            fatal_on_lease_timeout: true,
        }
    }
}

/// Per-queue counts of what a cleanup deleted.
#[derive(Debug, Clone, Copy, PartialEq, Eq)]
pub struct CleanupReport {
    pub tasks_deleted: i64,
    pub events_deleted: i64,
}

/// A partition old enough to be detached.
#[derive(Debug, Clone)]
pub struct DetachCandidate {
    pub queue_name: String,
    pub parent_table: String,
    pub partition_table: String,
}

/// Result state strings that match the schema enum.
#[derive(Debug, Clone, Copy, PartialEq, Eq, Structural)]
pub enum TaskResultState {
    Pending,
    Running,
    Sleeping,
    Completed,
    Failed,
    Cancelled,
}

/// The schema's name for a result state.
pub open spec fn state_name(s: TaskResultState) -> Seq<char> {
    match s {
        TaskResultState::Pending => "pending"@,
        TaskResultState::Running => "running"@,
        TaskResultState::Sleeping => "sleeping"@,
        TaskResultState::Completed => "completed"@,
        TaskResultState::Failed => "failed"@,
        TaskResultState::Cancelled => "cancelled"@,
    }
}

/// The state a schema name stands for; unknown names read as `Pending`.
pub open spec fn state_named(v: Seq<char>) -> TaskResultState {
    if v == "running"@ {
        TaskResultState::Running
    } else if v == "sleeping"@ {
        TaskResultState::Sleeping
    } else if v == "completed"@ {
        TaskResultState::Completed
    } else if v == "failed"@ {
        TaskResultState::Failed
    } else if v == "cancelled"@ {
        TaskResultState::Cancelled
    } else {
        TaskResultState::Pending
    }
}

/// Whether a state is final: completed, failed or cancelled.
pub open spec fn state_is_terminal(s: TaskResultState) -> bool {
    s is Completed || s is Failed || s is Cancelled
}

impl TaskResultState {
    /// The state a schema name stands for; unknown names read as `Pending`.
    pub fn from_str(value: &str) -> (r: TaskResultState)
        ensures
            r == state_named(value@),
    {
        proof {
            lemma_state_names_distinct();
            assert(state_name(TaskResultState::Pending) == "pending"@);
            assert(state_name(TaskResultState::Running) == "running"@);
            assert(state_name(TaskResultState::Sleeping) == "sleeping"@);
            assert(state_name(TaskResultState::Completed) == "completed"@);
            assert(state_name(TaskResultState::Failed) == "failed"@);
            assert(state_name(TaskResultState::Cancelled) == "cancelled"@);
        }
        if str_equal(value, "pending") {
            TaskResultState::Pending
        } else if str_equal(value, "running") {
            TaskResultState::Running
        } else if str_equal(value, "sleeping") {
            TaskResultState::Sleeping
        } else if str_equal(value, "completed") {
            TaskResultState::Completed
        } else if str_equal(value, "failed") {
            TaskResultState::Failed
        } else if str_equal(value, "cancelled") {
            TaskResultState::Cancelled
        } else {
            TaskResultState::Pending
        }
    }

    /// The schema's name for this state.
    pub fn as_str(self) -> (r: &'static str)
        ensures
            r@ == state_name(self),
    {
        match self {
            TaskResultState::Pending => "pending",
            TaskResultState::Running => "running",
            TaskResultState::Sleeping => "sleeping",
            TaskResultState::Completed => "completed",
            TaskResultState::Failed => "failed",
            TaskResultState::Cancelled => "cancelled",
        }
    }

    /// Whether the state is final: completed, failed or cancelled.
    pub fn is_terminal(self) -> (r: bool)
        ensures
            r == state_is_terminal(self),
    {
        match self {
            TaskResultState::Completed | TaskResultState::Failed | TaskResultState::Cancelled => true,
            _ => false,
        }
    }
}

proof fn lemma_state_names_distinct()
    ensures
        forall|a: TaskResultState, b: TaskResultState| a != b ==> state_name(a) != state_name(b),
{
    reveal_strlit("pending");
    reveal_strlit("running");
    reveal_strlit("sleeping");
    reveal_strlit("completed");
    reveal_strlit("failed");
    reveal_strlit("cancelled");
    assert forall|a: TaskResultState, b: TaskResultState| a != b implies state_name(a) != state_name(
        b,
    ) by {
        let x = state_name(a);
        let y = state_name(b);
        if x.len() == y.len() {
            if x[0] == y[0] {
                assert(x[1] != y[1]);
            } else {
                assert(x[0] != y[0]);
            }
        }
    }
}

/// Reading back the schema name of any result state gives that state.
pub proof fn law_state_name_round_trip(s: TaskResultState)
    ensures
        state_named(state_name(s)) == s,
{
    lemma_state_names_distinct();
    assert(state_name(TaskResultState::Pending) == "pending"@);
    assert(state_name(TaskResultState::Running) == "running"@);
    assert(state_name(TaskResultState::Sleeping) == "sleeping"@);
    assert(state_name(TaskResultState::Completed) == "completed"@);
    assert(state_name(TaskResultState::Failed) == "failed"@);
    assert(state_name(TaskResultState::Cancelled) == "cancelled"@);
}

} // verus!
