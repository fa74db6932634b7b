use absurd_sdk::client_rules::database_config;
use absurd_sdk::sleep_rules::{sleep_should_suspend, sleep_wake};
use absurd_sdk::timing::{heartbeat_turn, poll_decision, HeartbeatTurn, PollAction, PollOutcome};
use absurd_sdk::{AbsurdError, Span};

#[test]
fn first_sleep_stores_its_wake_time() {
    let (wake, store) = sleep_wake(None, (0, 0)).unwrap().unwrap();
    assert_eq!(wake, (0, 0));
    assert_eq!(store.as_deref(), Some("1970-01-01T00:00:00+00:00"));
    let (wake, store) = sleep_wake(None, (1_704_164_645, 500_000_000)).unwrap().unwrap();
    assert_eq!(wake, (1_704_164_645, 500_000_000));
    assert_eq!(store.as_deref(), Some("2024-01-02T03:04:05.500+00:00"));
}

#[test]
fn replayed_sleep_keeps_the_stored_wake_time() {
    let (wake, store) = sleep_wake(Some(Some("2024-01-02T03:04:05Z")), (9, 9)).unwrap().unwrap();
    assert_eq!(wake, (1_704_164_645, 0));
    assert!(store.is_none());
    let (wake, _) = sleep_wake(Some(Some("2024-01-02T05:04:05+02:00")), (9, 9)).unwrap().unwrap();
    assert_eq!(wake, (1_704_164_645, 0));
}

#[test]
fn empty_or_non_text_checkpoint_uses_the_request() {
    assert_eq!(sleep_wake(Some(Some("")), (7, 1)).unwrap().unwrap(), ((7, 1), None));
    assert_eq!(sleep_wake(Some(None), (7, 1)).unwrap().unwrap(), ((7, 1), None));
}

#[test]
fn unreadable_checkpoint_is_an_error() {
    let reason = chrono::DateTime::parse_from_rfc3339("yesterday").unwrap_err().to_string();
    match sleep_wake(Some(Some("yesterday")), (0, 0)).unwrap() {
        Err(AbsurdError::Other(m)) => {
            assert_eq!(m, format!("invalid wake_at checkpoint: {}", reason))
        }
        other => panic!("unexpected {:?}", other.map(|_| ())),
    }
}

#[test]
fn suspends_only_before_the_wake_time() {
    assert!(sleep_should_suspend((5, 0), (6, 0)));
    assert!(sleep_should_suspend((6, 1), (6, 2)));
    assert!(!sleep_should_suspend((6, 2), (6, 2)));
    assert!(!sleep_should_suspend((7, 0), (6, 999_999_999)));
}

#[test]
fn database_url_errors_carry_the_driver_reason() {
    let cfg = database_config("postgresql://app@db.example:6543/absurd").unwrap();
    assert_eq!(cfg.get_dbname(), Some("absurd"));
    assert_eq!(cfg.get_user(), Some("app"));
    assert_eq!(cfg.get_ports(), &[6543]);
    let bad = "postgresql://localhost:notaport/absurd";
    let reason = bad.parse::<tokio_postgres::Config>().unwrap_err().to_string();
    match database_config(bad) {
        Err(AbsurdError::Other(m)) => assert_eq!(m, format!("invalid database URL: {}", reason)),
        _ => panic!("expected an invalid database URL error"),
    }
}

#[test]
fn poll_outcomes() {
    let t = Some(Span::from_secs(10));
    assert_eq!(poll_decision(PollOutcome::Missing, t, Span::zero()), PollAction::NotFound);
    assert_eq!(poll_decision(PollOutcome::Terminal, t, Span::from_secs(99)), PollAction::Done);
    assert_eq!(poll_decision(PollOutcome::Pending, t, Span::from_secs(3)), PollAction::BeforeSleep);
    assert_eq!(poll_decision(PollOutcome::Pending, t, Span::from_secs(10)), PollAction::TimedOut);
    assert_eq!(poll_decision(PollOutcome::Pending, None, Span::from_secs(99)), PollAction::BeforeSleep);
    assert_eq!(
        poll_decision(PollOutcome::Pending, Some(Span::zero()), Span::zero()),
        PollAction::TimedOut
    );
}

#[test]
fn heartbeats_are_throttled() {
    let interval = Span::from_secs(30);
    assert!(matches!(
        heartbeat_turn(Span::from_secs(10), Span::from_secs(30), interval),
        HeartbeatTurn::Wait
    ));
    match heartbeat_turn(Span::from_secs(31), Span::from_secs(30), interval) {
        HeartbeatTurn::Beat(next) => assert_eq!(next.as_secs(), 61),
        HeartbeatTurn::Wait => panic!("a due heartbeat was skipped"),
    }
    match heartbeat_turn(Span::new(u64::MAX, 0), Span::zero(), interval) {
        HeartbeatTurn::Beat(next) => {
            assert_eq!(next.as_secs(), u64::MAX);
            assert_eq!(next.subsec_nanos(), 999_999_999);
        }
        HeartbeatTurn::Wait => panic!("a due heartbeat was skipped"),
    }
}

#[test]
fn spans_add_and_saturate() {
    let a = Span::new(1, 600_000_000);
    let b = Span::new(2, 700_000_000);
    let sum = a.saturating_add(&b);
    assert_eq!((sum.as_secs(), sum.subsec_nanos()), (4, 300_000_000));
    let top = Span::new(u64::MAX, 500_000_000).saturating_add(&Span::new(0, 600_000_000));
    assert_eq!((top.as_secs(), top.subsec_nanos()), (u64::MAX, 999_999_999));
}
