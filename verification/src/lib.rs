//! Verified core of the Absurd SDK: durable workflows on Postgres.
//!
//! Tasks decompose into idempotent steps whose results are checkpointed in
//! Postgres. This crate holds the decision logic of the SDK — queue-name
//! rules, duration arithmetic, migration planning, checkpoint naming and
//! replay, await back-off, spawn/registration resolution and the worker's
//! dispatch rules — each with a contract proved by Verus.

pub mod cli_rules;
pub mod client_rules;
pub mod error;
pub mod handlers;
pub mod migrations;
pub mod options;
pub mod replay;
pub mod run_rules;
pub mod sleep_rules;
pub mod span;
pub mod task_macro;
pub mod text;
pub mod timing;
pub mod util;
pub mod versions;

pub use error::{AbsurdError, TaskStateError};
pub use handlers::{FnHandler, LeaseObserver};
pub use options::{
    AwaitEventOptions, AwaitTaskResultOptions, CancellationPolicy, CleanupReport,
    CreateQueueOptions, DetachCandidate, QueueDetachMode, QueuePolicy, QueuePolicyOptions,
    QueueStorageMode, RetryStrategyKind, RetryTaskOptions, SpawnResult, TaskResultState,
    WorkBatchOptions, WorkerOptions,
};
pub use span::Span;
pub use util::{
    duration_seconds, duration_seconds_or, resolve_database_url, validate_queue_name,
    DEFAULT_QUEUE_NAME, MAX_QUEUE_NAME_LENGTH,
};
