use tap_game::circuit_breaker::{error_source, ErrorSource, ProbeOutcome, RECOVERY_NANOS};
use tap_game::state::{is_high_backlog, AppMetrics, CircuitBreakerState};

#[test]
fn fifth_redis_failure_opens_the_breaker_once() {
    let mut cb = CircuitBreakerState::default();
    for t in 1..=4u64 {
        assert!(!cb.record_redis_failure(t));
        assert!(!cb.is_redis_open);
    }
    assert!(cb.record_redis_failure(5));
    assert!(cb.is_redis_open);
    assert_eq!(cb.redis_failures, 5);
    assert_eq!(cb.last_failure_time, Some(5));
    // further failures do not trip it again
    assert!(!cb.record_redis_failure(6));
    assert_eq!(cb.redis_failures, 6);
    assert!(!cb.is_db_open);
}

#[test]
fn db_failures_open_only_the_db_breaker() {
    let mut cb = CircuitBreakerState::default();
    let mut trips = 0;
    for t in 0..5u64 {
        if cb.record_db_failure(t) {
            trips += 1;
        }
    }
    assert_eq!(trips, 1);
    assert!(cb.is_db_open);
    assert!(!cb.is_redis_open);
    assert_eq!(cb.redis_failures, 0);
}

#[test]
fn success_resets_counts_but_keeps_breakers_open() {
    let mut cb = CircuitBreakerState::default();
    for t in 0..5u64 {
        cb.record_redis_failure(t);
    }
    cb.record_db_failure(9);
    assert!(cb.record_success());
    assert_eq!(cb.redis_failures, 0);
    assert_eq!(cb.db_failures, 0);
    assert!(cb.is_redis_open);
    assert!(!cb.record_success());
}

#[test]
fn monitor_closes_after_quiet_period_only() {
    let mut cb = CircuitBreakerState::default();
    for t in 0..5u64 {
        cb.record_redis_failure(1_000 + t);
    }
    let last = 1_004;
    let report = cb.monitor_pass(last + RECOVERY_NANOS);
    assert!(!report.closed_redis);
    assert!(report.still_open);
    assert!(cb.is_redis_open);
    let report = cb.monitor_pass(last + RECOVERY_NANOS + 1);
    assert!(report.closed_redis);
    assert!(!report.closed_db);
    assert!(report.all_recovered);
    assert!(!report.still_open);
    assert!(!cb.is_redis_open);
    assert_eq!(cb.redis_failures, 0);
}

#[test]
fn monitor_without_failures_changes_nothing() {
    let mut cb = CircuitBreakerState::default();
    let report = cb.monitor_pass(u64::MAX);
    assert!(!report.closed_redis && !report.closed_db && !report.all_recovered && !report.still_open);
}

#[test]
fn trip_is_counted_in_metrics() {
    let mut m = AppMetrics::default();
    m.record_circuit_trip();
    m.record_circuit_trip();
    assert_eq!(m.circuit_breaker_trips, 2);
    assert_eq!(m.failed_requests, 0);
}

#[test]
fn errors_are_attributed_by_message() {
    assert_eq!(error_source("Redis connection refused"), ErrorSource::Redis);
    assert_eq!(error_source("REDIS timeout"), ErrorSource::Redis);
    assert_eq!(error_source("Database unavailable"), ErrorSource::Database);
    assert_eq!(error_source("db write failed"), ErrorSource::Database);
    assert_eq!(error_source("redis and database both down"), ErrorSource::Redis);
    assert_eq!(error_source("something else"), ErrorSource::Other);
    assert_eq!(error_source(""), ErrorSource::Other);
}

#[test]
fn backlog_warning_threshold() {
    assert!(!is_high_backlog(10_000));
    assert!(is_high_backlog(10_001));
}

#[test]
fn metrics_counters_move() {
    let mut m = AppMetrics::default();
    m.record_taps(7);
    m.record_flush(3, 12);
    m.record_failure();
    m.record_queue_size(99);
    assert_eq!(m.tap_events_processed, 7);
    assert_eq!(m.database_writes, 3);
    assert_eq!(m.worker_cycles_completed, 1);
    assert_eq!(m.failed_requests, 1);
    assert_eq!(m.current_queue_size, 99);
}

#[test]
fn workers_pause_while_any_breaker_is_open() {
    let mut s = CircuitBreakerState::default();
    assert!(!s.any_open());
    for t in 0..5u64 {
        s.record_db_failure(t);
    }
    assert!(s.any_open());
    s.monitor_pass(40_000_000_000);
    assert!(!s.any_open());
}

#[test]
fn consecutive_redis_failures_trip_exactly_once_at_the_fifth() {
    let mut cb = CircuitBreakerState::default();
    let mut trips = 0;
    for k in 1..=8u64 {
        if cb.record_redis_failure(k) {
            trips += 1;
            assert_eq!(k, 5);
        }
        assert_eq!(cb.redis_failures as u64, k);
        assert_eq!(cb.is_redis_open, k >= 5);
        assert!(!cb.is_db_open);
        assert_eq!(cb.db_failures, 0);
    }
    assert_eq!(trips, 1);
}

#[test]
fn failed_or_timed_out_health_checks_count_as_failures() {
    let mut cb = CircuitBreakerState::default();
    assert_eq!(cb.record_probes(ProbeOutcome::Healthy, ProbeOutcome::Healthy, 1), (false, false));
    assert_eq!((cb.redis_failures, cb.db_failures), (0, 0));
    assert_eq!(cb.last_failure_time, None);
    assert_eq!(cb.record_probes(ProbeOutcome::Failed, ProbeOutcome::TimedOut, 2), (false, false));
    assert_eq!((cb.redis_failures, cb.db_failures), (1, 1));
    assert_eq!(cb.last_failure_time, Some(2));
    for t in 3..6u64 {
        cb.record_probes(ProbeOutcome::TimedOut, ProbeOutcome::Healthy, t);
    }
    assert_eq!(cb.record_probes(ProbeOutcome::Failed, ProbeOutcome::Healthy, 7), (true, false));
    assert!(cb.is_redis_open && !cb.is_db_open);
}
