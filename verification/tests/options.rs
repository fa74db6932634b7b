use absurd_sdk::options::{QueueDetachMode, QueueStorageMode, TaskResultState};
use absurd_sdk::{AbsurdError, RetryStrategyKind, MAX_QUEUE_NAME_LENGTH};

#[test]
fn retry_strategy_kind_round_trip() {
    assert_eq!(RetryStrategyKind::Exponential.as_str(), "exponential");
    assert_eq!(RetryStrategyKind::Linear.as_str(), "linear");
    assert_eq!(RetryStrategyKind::Fixed.as_str(), "fixed");
    assert_eq!(RetryStrategyKind::Other("custom").as_str(), "custom");
}

#[test]
fn queue_name_validation_rejects_overlong() {
    let too_long = "a".repeat(MAX_QUEUE_NAME_LENGTH + 1);
    let _ = AbsurdError::InvalidQueueName(too_long);
}

#[test]
fn mode_names() {
    assert_eq!(QueueStorageMode::Unpartitioned.as_str(), "unpartitioned");
    assert_eq!(QueueStorageMode::Partitioned.as_str(), "partitioned");
    assert_eq!(QueueStorageMode::default(), QueueStorageMode::Unpartitioned);
    assert_eq!(QueueDetachMode::Never.as_str(), "none");
    assert_eq!(QueueDetachMode::Empty.as_str(), "empty");
}

#[test]
fn result_state_names() {
    let all = [
        TaskResultState::Pending,
        TaskResultState::Running,
        TaskResultState::Sleeping,
        TaskResultState::Completed,
        TaskResultState::Failed,
        TaskResultState::Cancelled,
    ];
    for s in all {
        assert_eq!(TaskResultState::from_str(s.as_str()), s);
    }
    assert_eq!(TaskResultState::from_str("weird"), TaskResultState::Pending);
    assert_eq!(TaskResultState::from_str("Completed"), TaskResultState::Pending);
    assert!(TaskResultState::Completed.is_terminal());
    assert!(TaskResultState::Failed.is_terminal());
    assert!(TaskResultState::Cancelled.is_terminal());
    assert!(!TaskResultState::Pending.is_terminal());
    assert!(!TaskResultState::Running.is_terminal());
    assert!(!TaskResultState::Sleeping.is_terminal());
}

#[test]
fn defaults() {
    let b = absurd_sdk::WorkBatchOptions::default();
    assert_eq!(b.worker_id, "worker");
    assert_eq!(b.claim_timeout.as_secs(), 120);
    assert_eq!(b.batch_size, 1);
    let w = absurd_sdk::WorkerOptions::default();
    assert!(w.worker_id.is_none());
    assert_eq!(w.concurrency, 1);
    assert_eq!(w.poll_interval.as_secs(), 0);
    assert_eq!(w.poll_interval.subsec_nanos(), 250_000_000);
    assert!(w.fatal_on_lease_timeout);
}

#[test]
fn error_messages() {
    assert_eq!(AbsurdError::Pool("x".to_string()).message(), "pool: x");
    assert_eq!(
        AbsurdError::InvalidQueueName("q".to_string()).message(),
        "invalid queue name: q"
    );
    assert_eq!(AbsurdError::TaskNotFound("t".to_string()).message(), "task not found: t");
    assert_eq!(
        AbsurdError::TaskNotRegistered("t".to_string()).message(),
        "task not registered: t"
    );
    assert_eq!(
        AbsurdError::NoTaskContext.message(),
        "no task context \u{2014} call from within a registered task"
    );
    assert_eq!(AbsurdError::Timeout("w".to_string()).message(), "timed out: w");
    assert_eq!(AbsurdError::Suspended.message(), "task suspended");
    assert_eq!(
        AbsurdError::TaskState(absurd_sdk::TaskStateError::Cancelled).message(),
        "task state: Cancelled"
    );
    assert_eq!(
        AbsurdError::TaskState(absurd_sdk::TaskStateError::AlreadyFailed).message(),
        "task state: AlreadyFailed"
    );
    assert_eq!(AbsurdError::other("plain".to_string()).message(), "plain");
    let json_err = serde_json::from_str::<serde_json::Value>("{").unwrap_err();
    assert!(AbsurdError::Json(json_err).message().starts_with("json: "));
}

#[test]
fn json_error_message_carries_the_error_text() {
    let json_err = serde_json::from_str::<serde_json::Value>("{").unwrap_err();
    let text = json_err.to_string();
    assert!(!text.is_empty());
    assert_eq!(AbsurdError::Json(json_err).message(), format!("json: {}", text));
}
