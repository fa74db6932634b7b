use absurd_sdk::cli_rules::{
    detach_mode_arg, ensure_host, host_url_encode, resolve_db_url, split_key_value,
    storage_mode_arg,
};
use absurd_sdk::client_rules::{
    check_event_name, client_settings, optional_queue, queue_or_default, queue_policy_fields, registration_queue,
    resolve_spawn, retry_task_fields, spawn_fields, FieldValue, TaskRegistration,
};
use absurd_sdk::error::{map_sqlstate, state_error_from_code};
use absurd_sdk::replay::ReplayState;
use absurd_sdk::run_rules::{
    claim_size, default_worker_id, defer_failure_text, dispatch_claimed, event_timeout_arg,
    header_policy, normalize_batch, normalize_worker, settle_completion_error, settle_event_wait,
    settle_run, settle_start_error, step_name_or, unknown_task_defer_delay, check_child_queue,
    worker_step, Dispatch, RunSlots, HeaderShape, RunAction, StartFailure, WorkerAction, WorkerEvent,
};
use absurd_sdk::text::{decimal_string, trim};
use absurd_sdk::timing::{
    effective_lease, heartbeat_interval, heartbeat_lease, initial_backoff, next_backoff,
    next_pause, task_wait_timeout, wait_expired, Pause,
};
use absurd_sdk::{
    duration_seconds, duration_seconds_or, resolve_database_url, validate_queue_name,
    AbsurdError, CancellationPolicy, QueueDetachMode, QueuePolicyOptions, QueueStorageMode,
    RetryTaskOptions, Span, TaskStateError, WorkBatchOptions, WorkerOptions,
};

fn millis(ms: u64) -> Span {
    Span::from_millis(ms)
}

#[test]
fn queue_names() {
    assert_eq!(validate_queue_name("default").unwrap(), "default");
    match validate_queue_name("") {
        Err(AbsurdError::InvalidQueueName(m)) => assert_eq!(m, "queue name must be provided"),
        other => panic!("{:?}", other),
    }
    let long = "q".repeat(58);
    match validate_queue_name(&long) {
        Err(AbsurdError::InvalidQueueName(m)) => {
            assert_eq!(m, format!("queue name {:?} is too long (max 57 bytes)", long))
        }
        other => panic!("{:?}", other),
    }
    assert!(validate_queue_name(&"q".repeat(57)).is_ok());
    // 29 two-byte characters are 58 bytes.
    assert!(validate_queue_name(&"é".repeat(29)).is_err());
    assert!(validate_queue_name(&"é".repeat(28)).is_ok());
}

#[test]
fn span_new_carries_whole_seconds() {
    let carried = Span::new(1, 2_500_000_000);
    assert_eq!(carried.as_secs(), 3);
    assert_eq!(carried.subsec_nanos(), 500_000_000);
}

#[test]
fn seconds_round_up() {
    assert_eq!(duration_seconds(Span::zero()), 0);
    assert_eq!(duration_seconds(Span::from_secs(5)), 5);
    assert_eq!(duration_seconds(Span::new(5, 1)), 6);
    assert_eq!(duration_seconds(millis(250)), 1);
    assert_eq!(duration_seconds(Span::new(10_000_000, 1)), 10_000_001);
    assert_eq!(duration_seconds(Span::from_secs(u64::MAX)), i32::MAX);
    assert_eq!(duration_seconds_or(Span::zero(), Span::from_secs(120)), 120);
    assert_eq!(duration_seconds_or(millis(1500), Span::from_secs(120)), 2);
}

#[test]
fn database_url_resolution() {
    assert_eq!(resolve_database_url(Some("  postgres://x  "), None, None), "postgres://x");
    assert_eq!(resolve_database_url(Some("   "), Some(" env "), None), " env ");
    assert_eq!(resolve_database_url(None, None, Some(" mydb ")), "dbname=mydb");
    assert_eq!(resolve_database_url(None, None, Some("host=x dbname=y")), "host=x dbname=y");
    assert_eq!(resolve_database_url(None, None, Some("postgres://h/d")), "postgres://h/d");
    assert_eq!(resolve_database_url(None, Some(""), None), "postgresql://localhost/absurd");
}

#[test]
fn trimming_and_numbers() {
    assert_eq!(trim("\u{3000} a b \t\n"), "a b");
    assert_eq!(trim("   "), "");
    assert_eq!(decimal_string(0), "0");
    assert_eq!(decimal_string(1234567890), "1234567890");
    assert_eq!(decimal_string(u64::MAX), u64::MAX.to_string());
}

#[test]
fn checkpoint_names_count_uses() {
    let mut st: ReplayState<i32> = ReplayState::new();
    assert_eq!(st.next_checkpoint_name("fetch"), "fetch");
    assert_eq!(st.next_checkpoint_name("fetch"), "fetch#2");
    assert_eq!(st.next_checkpoint_name("other"), "other");
    assert_eq!(st.next_checkpoint_name("fetch"), "fetch#3");
    assert_eq!(st.use_count_of("fetch"), 3);
    assert_eq!(st.use_count_of("missing"), 0);
}

#[test]
fn replay_meets_the_same_keys() {
    let calls = ["fetch", "charge", "fetch", "$awaitEvent:ship", "fetch"];
    let mut first: ReplayState<i32> = ReplayState::new();
    let keys: Vec<String> = calls.iter().map(|c| first.next_checkpoint_name(c)).collect();
    assert_eq!(keys, vec!["fetch", "charge", "fetch#2", "$awaitEvent:ship", "fetch#3"]);
    let mut replay: ReplayState<i32> = ReplayState::new();
    let again: Vec<String> = calls.iter().map(|c| replay.next_checkpoint_name(c)).collect();
    assert_eq!(keys, again);
    let mut sorted = keys.clone();
    sorted.sort();
    sorted.dedup();
    assert_eq!(sorted.len(), keys.len());
}

#[test]
fn keys_stay_distinct_when_a_name_holds_a_hash() {
    let mut st: ReplayState<i32> = ReplayState::new();
    assert_eq!(st.next_checkpoint_name("a"), "a");
    assert_eq!(st.next_checkpoint_name("a#2"), "a#2");
    assert_eq!(st.next_checkpoint_name("a"), "a#3");
    assert_eq!(st.use_count_of("a"), 3);
    assert_eq!(st.next_checkpoint_name("a"), "a#4");
    assert_eq!(st.issued_count(), 4);
}

#[test]
fn recording_between_steps_keeps_keys_distinct() {
    let mut st: ReplayState<i32> = ReplayState::new();
    assert_eq!(st.next_checkpoint_name("a"), "a");
    st.record("a", 1);
    assert_eq!(st.next_checkpoint_name("a#2"), "a#2");
    st.record("a#2", 2);
    assert_eq!(st.next_checkpoint_name("a"), "a#3");
    assert_eq!(st.issued_count(), 3);
    assert_eq!(st.lookup("a#2"), Some(&2));
}

#[test]
fn recorded_checkpoints_replay() {
    let mut st: ReplayState<String> = ReplayState::new();
    assert!(st.lookup("a").is_none());
    st.record("a", "one".to_string());
    st.record("b", "two".to_string());
    st.record("a", "three".to_string());
    assert_eq!(st.lookup("a"), Some(&"three".to_string()));
    assert_eq!(st.lookup("b"), Some(&"two".to_string()));
}

#[test]
fn lease_and_heartbeat_timing() {
    assert_eq!(effective_lease(Span::zero()).as_secs(), 120);
    assert_eq!(effective_lease(Span::from_secs(30)).as_secs(), 30);
    assert_eq!(heartbeat_lease(Span::zero(), Span::from_secs(30)).as_secs(), 30);
    assert_eq!(heartbeat_lease(Span::from_secs(7), Span::from_secs(30)).as_secs(), 7);
    assert_eq!(heartbeat_interval(Span::from_secs(120)).as_secs(), 60);
    let short = heartbeat_interval(Span::from_millis(600));
    assert_eq!((short.as_secs(), short.subsec_nanos()), (0, 500_000_000));
    let odd = heartbeat_interval(Span::new(3, 1));
    assert_eq!((odd.as_secs(), odd.subsec_nanos()), (1, 500_000_000));
}

#[test]
fn backoff_doubles_to_one_second() {
    let mut d = initial_backoff();
    let mut seen = Vec::new();
    for _ in 0..7 {
        seen.push(d.as_secs() * 1000 + (d.subsec_nanos() / 1_000_000) as u64);
        d = next_backoff(d);
    }
    assert_eq!(seen, vec![50, 100, 200, 400, 800, 1000, 1000]);
}

#[test]
fn pauses_respect_the_timeout() {
    assert!(!wait_expired(None, Span::from_secs(100)));
    assert!(wait_expired(Some(Span::zero()), Span::zero()));
    assert!(wait_expired(Some(Span::from_secs(1)), Span::from_secs(1)));
    assert!(!wait_expired(Some(Span::from_secs(2)), Span::from_secs(1)));
    match next_pause(millis(400), Some(Span::from_secs(1)), millis(800)) {
        Pause::Sleep(s) => assert_eq!(s.subsec_nanos(), 200_000_000),
        Pause::Expired => panic!("expired"),
    }
    match next_pause(millis(400), None, Span::from_secs(100)) {
        Pause::Sleep(s) => assert_eq!(s.subsec_nanos(), 400_000_000),
        Pause::Expired => panic!("expired"),
    }
    assert!(matches!(next_pause(millis(400), Some(Span::from_secs(1)), millis(1000)), Pause::Expired));
    match task_wait_timeout("abc") {
        AbsurdError::Timeout(m) => assert_eq!(m, "timed out waiting for task \"abc\""),
        other => panic!("{:?}", other),
    }
}

#[test]
fn queue_choices() {
    assert_eq!(queue_or_default("", "default").unwrap(), "default");
    assert_eq!(queue_or_default("jobs", "default").unwrap(), "jobs");
    assert!(queue_or_default(&"x".repeat(60), "default").is_err());
    assert_eq!(optional_queue(None).unwrap(), None);
    assert_eq!(optional_queue(Some("")).unwrap(), None);
    assert_eq!(optional_queue(Some("jobs")).unwrap(), Some("jobs".to_string()));
    match registration_queue("", None, "default") {
        Err(AbsurdError::Other(m)) => assert_eq!(m, "task registration requires a name"),
        other => panic!("{:?}", other),
    }
    assert_eq!(registration_queue("t", None, "default").unwrap(), "default");
    assert_eq!(registration_queue("t", Some("q2"), "default").unwrap(), "q2");
}

#[test]
fn client_defaults() {
    assert_eq!(client_settings(None, None).unwrap(), ("default".to_string(), 5));
    assert_eq!(client_settings(Some("jobs"), Some(2)).unwrap(), ("jobs".to_string(), 2));
    assert!(matches!(client_settings(Some(""), None), Err(AbsurdError::InvalidQueueName(_))));
}

#[test]
fn spawn_resolution() {
    let reg = TaskRegistration {
        name: "t".to_string(),
        queue_name: "jobs".to_string(),
        default_max_attempts: Some(3),
        default_cancellation: Some(CancellationPolicy { max_duration: Some(10), max_delay: None }),
    };
    let (q, n, c) = resolve_spawn("t", Some(&reg), None, None, None, 5).unwrap();
    assert_eq!((q.as_str(), n), ("jobs", 3));
    assert_eq!(c, Some(CancellationPolicy { max_duration: Some(10), max_delay: None }));
    let (_, n, c) = resolve_spawn("t", Some(&reg), Some("jobs"), Some(9), Some(CancellationPolicy::default()), 5).unwrap();
    assert_eq!(n, 9);
    assert_eq!(c, Some(CancellationPolicy::default()));
    match resolve_spawn("t", Some(&reg), Some("other"), None, None, 5) {
        Err(AbsurdError::Other(m)) => assert_eq!(
            m,
            "task \"t\" is registered for queue \"jobs\" but spawn requested queue \"other\""
        ),
        other => panic!("{:?}", other),
    }
    let (q, n, c) = resolve_spawn("u", None, Some("q"), None, None, 5).unwrap();
    assert_eq!((q.as_str(), n, c), ("q", 5, None));
    match resolve_spawn("u", None, Some(""), None, None, 5) {
        Err(AbsurdError::TaskNotRegistered(m)) => assert_eq!(m, "u"),
        other => panic!("{:?}", other),
    }
    assert!(matches!(
        resolve_spawn("u", None, None, None, None, 5),
        Err(AbsurdError::TaskNotRegistered(_))
    ));
}

fn keys(v: &[(&'static str, FieldValue)]) -> Vec<&'static str> {
    v.iter().map(|(k, _)| *k).collect()
}

#[test]
fn payload_fields() {
    assert!(queue_policy_fields(&QueuePolicyOptions::default()).is_empty());
    let opts = QueuePolicyOptions {
        cleanup_ttl: Some("7 days".to_string()),
        cleanup_limit: Some(100),
        detach_mode: Some(QueueDetachMode::Never),
        ..Default::default()
    };
    let f = queue_policy_fields(&opts);
    assert_eq!(keys(&f), vec!["cleanup_ttl", "cleanup_limit", "detach_mode"]);
    assert!(matches!(&f[2].1, FieldValue::Text(s) if s == "none"));
    let r = retry_task_fields(&RetryTaskOptions { max_attempts: Some(4), spawn_new: true });
    assert_eq!(keys(&r), vec!["max_attempts", "spawn_new"]);
    assert!(retry_task_fields(&RetryTaskOptions::default()).is_empty());
    let s = spawn_fields(Some(0), Some(0), true, Some(CancellationPolicy::default()), Some(""));
    assert_eq!(s.max_attempts, None);
    assert!(!s.include_headers);
    assert!(s.include_retry_strategy);
    assert!(s.cancellation.is_empty());
    assert!(s.idempotency_key.is_none());
    let s = spawn_fields(Some(2), Some(1), false, Some(CancellationPolicy { max_duration: None, max_delay: Some(5) }), Some("k"));
    assert_eq!(s.max_attempts, Some(2));
    assert!(s.include_headers);
    assert_eq!(keys(&s.cancellation), vec!["max_delay"]);
    assert_eq!(s.idempotency_key.as_deref(), Some("k"));
    assert!(check_event_name("").is_err());
    assert!(check_event_name("e").is_ok());
}

#[test]
fn sqlstate_mapping() {
    assert_eq!(state_error_from_code("AB001"), Some(TaskStateError::Cancelled));
    assert_eq!(state_error_from_code("AB002"), Some(TaskStateError::AlreadyFailed));
    assert_eq!(state_error_from_code("23505"), None);
    assert_eq!(map_sqlstate(None), None);
}

#[test]
fn worker_dispatch_and_settling() {
    assert!(matches!(dispatch_claimed(None, "q", "t"), Dispatch::DeferUnknown));
    assert!(matches!(dispatch_claimed(Some("q"), "q", "t"), Dispatch::Run));
    match dispatch_claimed(Some("other"), "q", "t") {
        Dispatch::RejectQueueMismatch(m) => assert_eq!(m, "misconfigured task \"t\" (queue mismatch)"),
        other => panic!("{:?}", other),
    }
    assert!(matches!(settle_run::<i32>(Ok(3)), RunAction::Complete(3)));
    assert!(matches!(settle_run::<i32>(Err(AbsurdError::Suspended)), RunAction::Leave));
    assert!(matches!(
        settle_run::<i32>(Err(AbsurdError::TaskState(TaskStateError::Cancelled))),
        RunAction::Leave
    ));
    match settle_run::<i32>(Err(AbsurdError::Other("boom".to_string()))) {
        RunAction::Fail(m) => assert_eq!(m, "boom"),
        other => panic!("{:?}", other),
    }
    assert!(settle_completion_error(AbsurdError::TaskState(TaskStateError::AlreadyFailed)).is_ok());
    assert!(settle_completion_error(AbsurdError::Suspended).is_err());
    assert!(matches!(
        settle_start_error(AbsurdError::InvalidTaskHeaders("h".to_string())),
        StartFailure::FailRun(m) if m == "h"
    ));
    assert!(matches!(settle_start_error(AbsurdError::NoTaskContext), StartFailure::Abort(_)));
    assert_eq!(
        defer_failure_text("t", "id1", "pool: down"),
        "failed to defer unknown task \"t\" (id1): pool: down"
    );
}

#[test]
fn unknown_task_delay_uses_fnv1a() {
    // FNV-1a 64 of "a" is 0xaf63dc4c8601ec8c; its low 32 bits mod 16 are 12.
    let d = unknown_task_defer_delay("a");
    assert_eq!(d.as_secs(), 27);
    let d = unknown_task_defer_delay("");
    // FNV-1a 64 of "" is the offset basis 0xcbf29ce484222325: 0x84222325 % 16 == 5.
    assert_eq!(d.as_secs(), 20);
}

#[test]
fn task_context_rules() {
    assert_eq!(header_policy(HeaderShape::Object).unwrap(), true);
    assert_eq!(header_policy(HeaderShape::Null).unwrap(), false);
    assert_eq!(header_policy(HeaderShape::Missing).unwrap(), false);
    match header_policy(HeaderShape::OtherValue) {
        Err(AbsurdError::InvalidTaskHeaders(m)) => assert_eq!(m, "headers payload must be a JSON object"),
        other => panic!("{:?}", other),
    }
    assert_eq!(step_name_or(None, "$awaitEvent:", "ping"), "$awaitEvent:ping");
    assert_eq!(step_name_or(Some("mine".to_string()), "$awaitEvent:", "ping"), "mine");
    assert!(check_child_queue("a", "a").is_err());
    assert!(check_child_queue("a", "b").is_ok());
    assert_eq!(event_timeout_arg(None), None);
    assert_eq!(event_timeout_arg(Some(Span::zero())), Some(0));
    assert_eq!(event_timeout_arg(Some(millis(1500))), Some(2));
    assert!(matches!(settle_event_wait(true, true, "e"), Err(AbsurdError::Suspended)));
    match settle_event_wait(false, false, "e") {
        Err(AbsurdError::Timeout(m)) => assert_eq!(m, "timed out waiting for event \"e\""),
        other => panic!("{:?}", other),
    }
    assert!(settle_event_wait(false, true, "e").is_ok());
}

#[test]
fn worker_options_normalised() {
    let b = normalize_batch(WorkBatchOptions {
        worker_id: String::new(),
        claim_timeout: Span::zero(),
        batch_size: -3,
    });
    assert_eq!((b.worker_id.as_str(), b.claim_timeout.as_secs(), b.batch_size), ("worker", 120, 1));
    let w = normalize_worker(
        WorkerOptions { concurrency: 0, ..WorkerOptions::default() },
        default_worker_id(Some("host".to_string()), 42),
    );
    assert_eq!(w.batch.worker_id, "host:42");
    assert_eq!((w.concurrency, w.batch.batch_size), (1, 1));
    let w = normalize_worker(
        WorkerOptions { concurrency: 4, batch_size: Some(2), worker_id: Some("me".to_string()), ..WorkerOptions::default() },
        default_worker_id(None, 7),
    );
    assert_eq!((w.batch.worker_id.as_str(), w.concurrency, w.batch.batch_size), ("me", 4, 2));
    assert_eq!(default_worker_id(None, 7), "worker:7");
    assert_eq!(claim_size(4, 2), 2);
    assert_eq!(claim_size(1, 3), 1);
}

#[test]
fn cli_connection_strings() {
    assert_eq!(ensure_host("postgres://h/db", "/tmp"), "postgres://h/db");
    assert_eq!(ensure_host("dbname=x host=y", "/tmp"), "dbname=x host=y");
    assert_eq!(ensure_host("dbname=x  hostaddr=1.2.3.4", "/tmp"), "dbname=x  hostaddr=1.2.3.4");
    assert_eq!(ensure_host("dbname=x myhost=y", "/tmp"), "host=/tmp dbname=x myhost=y");
    assert_eq!(ensure_host("absurd", "/var/run/postgresql"), "postgresql://%2Fvar%2Frun%2Fpostgresql/absurd");
    assert_eq!(host_url_encode("localhost"), "localhost");
    assert_eq!(resolve_db_url(Some("postgres://a"), Some("b"), None, None, "h"), "postgres://a");
    assert_eq!(resolve_db_url(None, Some(" b "), None, None, "h"), "postgresql://h/b");
    assert_eq!(resolve_db_url(None, None, Some("env"), None, "h"), "env");
    assert_eq!(resolve_db_url(None, None, None, Some("dbname=z"), "h"), "host=h dbname=z");
    assert_eq!(resolve_db_url(None, None, None, None, "h"), "postgresql://localhost/absurd");
    assert_eq!(storage_mode_arg(Some("partitioned")), QueueStorageMode::Partitioned);
    assert_eq!(storage_mode_arg(None), QueueStorageMode::Unpartitioned);
    assert_eq!(detach_mode_arg(Some("none")), Some(QueueDetachMode::Never));
    assert_eq!(detach_mode_arg(Some("empty")), Some(QueueDetachMode::Empty));
    assert_eq!(detach_mode_arg(Some("x")), None);
    assert_eq!(split_key_value("a=b=c"), Some(("a".to_string(), "b=c".to_string())));
    assert_eq!(split_key_value("abc"), None);
}

#[test]
fn worker_loop_turns() {
    let ready = |shutting_down: bool, free_slots: i32| WorkerEvent::Ready { shutting_down, free_slots };
    assert_eq!(worker_step(4, ready(true, 3)), WorkerAction::Stop);
    assert_eq!(worker_step(4, ready(false, 0)), WorkerAction::Pause);
    assert_eq!(worker_step(4, ready(false, 3)), WorkerAction::Claim(3));
    assert_eq!(worker_step(2, ready(false, 3)), WorkerAction::Claim(2));
    assert_eq!(worker_step(4, WorkerEvent::Claimed(0)), WorkerAction::Pause);
    assert_eq!(worker_step(4, WorkerEvent::Claimed(2)), WorkerAction::Run);
    assert_eq!(worker_step(4, WorkerEvent::ClaimFailed), WorkerAction::Pause);
}

#[test]
fn run_slots_bound_runs_in_flight() {
    let mut slots = RunSlots::new(2);
    assert_eq!(slots.free(), 2);
    assert!(slots.try_start());
    assert!(slots.try_start());
    assert!(!slots.try_start());
    assert_eq!(slots.free(), 0);
    slots.finish();
    assert_eq!(slots.free(), 1);
    let mut one = RunSlots::new(0);
    assert!(one.try_start());
    assert!(!one.try_start());
    one.finish();
    one.finish();
    assert_eq!(one.free(), 1);
}
