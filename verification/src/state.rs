//! The shared counters of the server: request metrics and the two circuit
//! breakers (Redis and the database).

use vstd::prelude::*;

verus! {

/// Counters that the handlers, the workers and the monitors keep.
#[derive(Debug, Clone, Copy)]
pub struct AppMetrics {
    pub total_requests: u64,
    pub tap_events_processed: u64,
    pub database_writes: u64,
    pub failed_requests: u64,
    pub current_queue_size: u64,
    pub avg_response_time_ms: u64,
    pub worker_cycles_completed: u64,
    pub circuit_breaker_trips: u64,
}

/// The state of the two circuit breakers. Times are nanoseconds on the
/// server's monotonic clock.
#[derive(Debug, Clone, Copy)]
pub struct CircuitBreakerState {
    pub redis_failures: u32,
    pub db_failures: u32,
    pub last_failure_time: Option<u64>,
    pub is_redis_open: bool,
    pub is_db_open: bool,
}

impl Default for AppMetrics {
    /// All counters at zero.
    fn default() -> (r: Self)
        ensures
            r.total_requests == 0,
            r.tap_events_processed == 0,
            r.database_writes == 0,
            r.failed_requests == 0,
            r.current_queue_size == 0,
            r.avg_response_time_ms == 0,
            r.worker_cycles_completed == 0,
            r.circuit_breaker_trips == 0,
    {
        AppMetrics {
            total_requests: 0,
            tap_events_processed: 0,
            database_writes: 0,
            failed_requests: 0,
            current_queue_size: 0,
            avg_response_time_ms: 0,
            worker_cycles_completed: 0,
            circuit_breaker_trips: 0,
        }
    }
}

impl Default for CircuitBreakerState {
    /// Both breakers closed, no failure seen.
    fn default() -> (r: Self)
        ensures
            r.redis_failures == 0,
            r.db_failures == 0,
            r.last_failure_time is None,
            !r.is_redis_open,
            !r.is_db_open,
    {
        CircuitBreakerState {
            redis_failures: 0,
            db_failures: 0,
            last_failure_time: None,
            is_redis_open: false,
            is_db_open: false,
        }
    }
}

/// Queue length above which the metrics collector warns of a backlog.
pub const HIGH_BACKLOG: usize = 10000;

/// Whether a queue of `queue_size` users is a backlog worth a warning.
pub fn is_high_backlog(queue_size: usize) -> (r: bool)
    ensures
        r == (queue_size > HIGH_BACKLOG),
{
    queue_size > HIGH_BACKLOG
}

impl AppMetrics {
    /// Counts one more opening of a circuit breaker.
    pub fn record_circuit_trip(&mut self)
        requires
            old(self).circuit_breaker_trips < u64::MAX,
        ensures
            *final(self) == (AppMetrics {
                circuit_breaker_trips: (old(self).circuit_breaker_trips + 1) as u64,
                ..*old(self)
            }),
    {
        self.circuit_breaker_trips = self.circuit_breaker_trips + 1;
    }

    /// Counts `taps` more processed tap events.
    pub fn record_taps(&mut self, taps: u64)
        requires
            old(self).tap_events_processed + taps <= u64::MAX,
        ensures
            *final(self) == (AppMetrics {
                tap_events_processed: (old(self).tap_events_processed + taps) as u64,
                ..*old(self)
            }),
    {
        self.tap_events_processed = self.tap_events_processed + taps;
    }

    /// Records a flush cycle that wrote `count` rows while the queue held
    /// `queue_size` users.
    pub fn record_flush(&mut self, count: usize, queue_size: usize)
        requires
            old(self).database_writes + count <= u64::MAX,
            old(self).worker_cycles_completed < u64::MAX,
        ensures
            *final(self) == (AppMetrics {
                database_writes: (old(self).database_writes + count) as u64,
                current_queue_size: queue_size as u64,
                worker_cycles_completed: (old(self).worker_cycles_completed + 1) as u64,
                ..*old(self)
            }),
    {
        self.database_writes = self.database_writes + count as u64;
        self.current_queue_size = queue_size as u64;
        self.worker_cycles_completed = self.worker_cycles_completed + 1;
    }

    /// Counts one more failed request or flush cycle.
    pub fn record_failure(&mut self)
        requires
            old(self).failed_requests < u64::MAX,
        ensures
            *final(self) == (AppMetrics {
                failed_requests: (old(self).failed_requests + 1) as u64,
                ..*old(self)
            }),
    {
        self.failed_requests = self.failed_requests + 1;
    }

    /// Records the size of the dirty-user queue.
    pub fn record_queue_size(&mut self, queue_size: usize)
        ensures
            *final(self) == (AppMetrics { current_queue_size: queue_size as u64, ..*old(self) }),
    {
        self.current_queue_size = queue_size as u64;
    }
}

} // verus!
