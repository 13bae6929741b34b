use tap_game::errors::AppError;
use tap_game::models::player::UserScoreUpdate;
use tap_game::workers::{after_fetch, after_persist, backoff_interval_ms, calculate_optimal_batch_size, clone_updates, dlq_start, dlq_step, AfterFetch, DlqAction, DlqEvent, DlqState, FetchOutcome, PersistOutcome, WorkerState, MAX_FLUSH_WAIT_NANOS, MAX_INTERVAL_MS, MIN_INTERVAL_MS};

#[test]
fn batch_size_steps() {
    assert_eq!(calculate_optimal_batch_size(0), 1000);
    assert_eq!(calculate_optimal_batch_size(500), 1000);
    assert_eq!(calculate_optimal_batch_size(501), 3000);
    assert_eq!(calculate_optimal_batch_size(2000), 3000);
    assert_eq!(calculate_optimal_batch_size(2001), 5000);
    assert_eq!(calculate_optimal_batch_size(10000), 5000);
    assert_eq!(calculate_optimal_batch_size(10001), 10000);
    assert_eq!(calculate_optimal_batch_size(50000), 10000);
    assert_eq!(calculate_optimal_batch_size(50001), 15000);
    assert_eq!(calculate_optimal_batch_size(usize::MAX), 15000);
}

#[test]
fn backoff_doubles_up_to_the_cap() {
    assert_eq!(backoff_interval_ms(1, 0), 200);
    assert_eq!(backoff_interval_ms(2, 5), 405);
    assert_eq!(backoff_interval_ms(3, 99), 899);
    assert_eq!(backoff_interval_ms(4, 0), 1600);
    assert_eq!(backoff_interval_ms(5, 0), 2000);
    assert_eq!(backoff_interval_ms(100, 50), 2000);
    assert_eq!(backoff_interval_ms(0, 0), 100);
}

#[test]
fn idle_cycles_double_the_pause() {
    let mut w = WorkerState::new(0);
    assert_eq!(w.plan_flush(0, 0), None);
    assert_eq!(w.interval_ms, 200);
    assert_eq!(w.plan_flush(50, 1), None);
    assert_eq!(w.interval_ms, 400);
    w.plan_flush(0, 2);
    w.plan_flush(0, 3);
    assert_eq!(w.interval_ms, 1600);
    w.plan_flush(0, 4);
    assert_eq!(w.interval_ms, MAX_INTERVAL_MS);
    w.plan_flush(0, 5);
    assert_eq!(w.interval_ms, MAX_INTERVAL_MS);
}

#[test]
fn long_queue_or_long_wait_flushes() {
    let mut w = WorkerState::new(1_000);
    assert_eq!(w.plan_flush(100, 1_000), Some(1000));
    assert_eq!(w.plan_flush(600, 1_000), Some(3000));
    assert_eq!(w.plan_flush(5, 1_000 + MAX_FLUSH_WAIT_NANOS - 1), None);
    assert_eq!(w.plan_flush(5, 1_000 + MAX_FLUSH_WAIT_NANOS), Some(1000));
    assert_eq!(w.plan_flush(0, u64::MAX), None);
}

#[test]
fn success_and_failure_move_the_pause() {
    let mut w = WorkerState::new(0);
    w.record_failure();
    assert_eq!(w.consecutive_errors, 1);
    assert!(w.interval_ms >= 200 && w.interval_ms < 300);
    w.record_failure();
    assert!(w.interval_ms >= 400 && w.interval_ms < 500);
    for _ in 0..5 {
        w.record_failure();
    }
    assert_eq!(w.interval_ms, MAX_INTERVAL_MS);
    w.record_success(77);
    assert_eq!(w.interval_ms, MIN_INTERVAL_MS);
    assert_eq!(w.consecutive_errors, 0);
    assert_eq!(w.last_flush_nanos, 77);
}

fn upd(user_id: i64, new_score: i64) -> UserScoreUpdate {
    UserScoreUpdate { user_id, new_score }
}

#[test]
fn flush_after_fetch() {
    match after_fetch(FetchOutcome::Fetched(vec![])) {
        AfterFetch::NothingToDo => {}
        _ => panic!("expected nothing to do"),
    }
    match after_fetch(FetchOutcome::Fetched(vec![upd(1, 2)])) {
        AfterFetch::Persist(v) => assert_eq!(v.len(), 1),
        _ => panic!("expected persist"),
    }
    match after_fetch(FetchOutcome::TimedOut) {
        AfterFetch::RedisFailed(e) => assert_eq!(e, AppError::Internal("Redis operation timeout".to_string())),
        _ => panic!("expected redis failure"),
    }
    match after_fetch(FetchOutcome::Failed(AppError::Redis("down".to_string()))) {
        AfterFetch::RedisFailed(e) => assert_eq!(e, AppError::Redis("down".to_string())),
        _ => panic!("expected redis failure"),
    }
}

#[test]
fn flush_after_persist() {
    let ok = after_persist(3, PersistOutcome::Persisted);
    assert_eq!(ok.result, Ok(3));
    assert!(!ok.db_failed && !ok.move_to_dlq);
    let failed = after_persist(3, PersistOutcome::Failed(AppError::Internal("x".to_string())));
    assert_eq!(failed.result, Err(AppError::Internal("x".to_string())));
    assert!(failed.db_failed && failed.move_to_dlq);
    let late = after_persist(3, PersistOutcome::TimedOut);
    assert_eq!(late.result, Err(AppError::Internal("Database operation timeout".to_string())));
    assert!(late.db_failed && late.move_to_dlq);
}

#[test]
fn dlq_cycle_happy_path() {
    let s = dlq_start();
    let (s, a) = dlq_step(s, DlqEvent::Size(Ok(3)));
    assert!(matches!(a, DlqAction::SampleMembers(50)));
    let (s, a) = dlq_step(s, DlqEvent::Members(Ok(vec!["1".to_string()])));
    assert!(matches!(a, DlqAction::ReadScores(ref v) if v.len() == 1));
    let (s, a) = dlq_step(s, DlqEvent::Scores(Ok(vec![upd(1, 10)])));
    assert!(matches!(a, DlqAction::Persist(ref v) if v.len() == 1 && v[0].new_score == 10));
    let (s, a) = dlq_step(s, DlqEvent::Persisted(Ok(())));
    assert!(matches!(a, DlqAction::Remove(ref v) if v.len() == 1 && v[0].user_id == 1));
    let (s, a) = dlq_step(s, DlqEvent::Removed(Ok(())));
    assert!(matches!(a, DlqAction::Rest));
    assert!(matches!(s, DlqState::Done));
}

#[test]
fn dlq_cycle_stops_early() {
    let (s, a) = dlq_step(dlq_start(), DlqEvent::Size(Ok(0)));
    assert!(matches!(a, DlqAction::Rest) && matches!(s, DlqState::Done));
    let (s, _) = dlq_step(dlq_start(), DlqEvent::Size(Ok(2)));
    let (s, a) = dlq_step(s, DlqEvent::Members(Ok(vec![])));
    assert!(matches!(a, DlqAction::Rest) && matches!(s, DlqState::Done));
    let (s, _) = dlq_step(dlq_start(), DlqEvent::Size(Ok(2)));
    let (s, _) = dlq_step(s, DlqEvent::Members(Ok(vec!["5".to_string()])));
    let (s, _) = dlq_step(s, DlqEvent::Scores(Ok(vec![upd(5, 1)])));
    let (s, a) = dlq_step(s, DlqEvent::Persisted(Err(AppError::Internal("db".to_string()))));
    assert!(matches!(a, DlqAction::Rest) && matches!(s, DlqState::Done));
    let (s, a) = dlq_step(dlq_start(), DlqEvent::Size(Err(AppError::Redis("x".to_string()))));
    assert!(matches!(a, DlqAction::Rest) && matches!(s, DlqState::Done));
}

#[test]
fn copies_updates() {
    let v = vec![upd(1, 2), upd(3, 4)];
    let c = clone_updates(&v);
    assert_eq!(c.len(), 2);
    assert_eq!(c[1].user_id, 3);
    assert_eq!(c[1].new_score, 4);
}

#[test]
fn workers_pause_five_seconds_while_a_breaker_is_open() {
    let mut cb = tap_game::state::CircuitBreakerState::default();
    assert_eq!(tap_game::workers::breaker_pause_ms(&cb), None);
    cb.is_db_open = true;
    assert_eq!(tap_game::workers::breaker_pause_ms(&cb), Some(5000));
}
