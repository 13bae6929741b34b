//! The decisions of the background workers: when a worker flushes the
//! dirty scores from Redis to the database, how large a batch it takes, how
//! it backs off after failures, and what a flush and a dead-letter retry do
//! with each outcome of their calls.

use vstd::prelude::*;
use vstd::string::StringExecFns;
use crate::errors::AppError;
use crate::models::player::UserScoreUpdate;
use crate::state::CircuitBreakerState;

verus! {

/// The shortest pause between two cycles of a worker, in milliseconds.
pub const MIN_INTERVAL_MS: u64 = 100;

/// The longest pause between two cycles of a worker, in milliseconds.
pub const MAX_INTERVAL_MS: u64 = 2000;

/// Queue length from which a worker flushes at once.
pub const MIN_FLUSH_THRESHOLD: usize = 100;

/// Time after the last flush, in nanoseconds, after which any non-empty
/// queue is flushed.
pub const MAX_FLUSH_WAIT_NANOS: u64 = 30_000_000_000;

/// Pause of a worker while a circuit breaker is open, in milliseconds.
pub const CIRCUIT_OPEN_PAUSE_MS: u64 = 5000;

/// How many users the dead-letter worker retries per cycle.
pub const DLQ_RETRY_BATCH: usize = 50;

pub open spec fn batch_size_spec(queue_size: int) -> int {
    if queue_size <= 500 {
        1000
    } else if queue_size <= 2000 {
        3000
    } else if queue_size <= 10000 {
        5000
    } else if queue_size <= 50000 {
        10000
    } else {
        15000
    }
}

/// How many users a flush takes from a queue of `queue_size` users.
pub fn calculate_optimal_batch_size(queue_size: usize) -> (r: usize)
    ensures
        r == batch_size_spec(queue_size as int),
{
    if queue_size <= 500 {
        1000
    } else if queue_size <= 2000 {
        3000
    } else if queue_size <= 10000 {
        5000
    } else if queue_size <= 50000 {
        10000
    } else {
        15000
    }
}

/// A longer queue never gets a smaller batch, and every batch is between
/// 1000 and 15000 users.
pub proof fn lemma_batch_size_monotone(a: int, b: int)
    requires
        0 <= a <= b,
    ensures
        batch_size_spec(a) <= batch_size_spec(b),
        1000 <= batch_size_spec(a) <= 15000,
{
}

pub open spec fn pow2(k: nat) -> nat
    decreases k,
{
    if k == 0 {
        1
    } else {
        2 * pow2((k - 1) as nat)
    }
}

proof fn lemma_pow2_positive(k: nat)
    ensures
        pow2(k) >= 1,
    decreases k,
{
    if k > 0 {
        lemma_pow2_positive((k - 1) as nat);
    }
}

/// The pause after the `errors`-th failure in a row: 100 ms times 2 to the
/// power of the failure count (at most 6), plus the jitter, at most the
/// longest pause.
pub open spec fn backoff_spec(errors: u32, jitter: u64) -> u64 {
    let k: nat = if errors < 6 { errors as nat } else { 6 };
    let b = 100 * pow2(k) + jitter;
    if b < MAX_INTERVAL_MS { b as u64 } else { MAX_INTERVAL_MS }
}

/// The pause after the `errors`-th failure in a row, for a given jitter.
pub fn backoff_interval_ms(errors: u32, jitter: u64) -> (r: u64)
    requires
        jitter < 100,
    ensures
        r == backoff_spec(errors, jitter),
{
    let k: u32 = if errors < 6 { errors } else { 6 };
    let mut p: u64 = 1;
    let mut i: u32 = 0;
    while i < k
        invariant
            i <= k <= 6,
            p == pow2(i as nat),
            p <= 64,
        decreases k - i,
    {
        assert(pow2((i + 1) as nat) == 2 * pow2(i as nat));
        assert(i < 6 ==> pow2(i as nat) <= 32) by {
            assert(pow2(0) == 1);
            assert(pow2(1) == 2);
            assert(pow2(2) == 4);
            assert(pow2(3) == 8);
            assert(pow2(4) == 16);
            assert(pow2(5) == 32);
        }
        p = p * 2;
        i = i + 1;
    }
    let b = 100 * p + jitter;
    if b < MAX_INTERVAL_MS {
        b
    } else {
        MAX_INTERVAL_MS
    }
}

/// `fastrand::u64(0..bound)`: a random number below `bound`.
#[verifier::external_body]
fn random_below(bound: u64) -> (r: u64)
    requires
        bound > 0,
    ensures
        r < bound,
{
    fastrand::u64(0..bound)
}

/// How long a flush worker pauses instead of running its cycle: while
/// either circuit breaker is open it skips the cycle and pauses 5 seconds;
/// otherwise it runs the cycle (`None`).
pub fn breaker_pause_ms(breaker: &CircuitBreakerState) -> (r: Option<u64>)
    ensures
        r == (if breaker.is_redis_open || breaker.is_db_open { Some(CIRCUIT_OPEN_PAUSE_MS) } else { None::<u64> }),
{
    if breaker.any_open() {
        Some(CIRCUIT_OPEN_PAUSE_MS)
    } else {
        None
    }
}

/// The state that a flush worker keeps between cycles. Times are
/// nanoseconds on the server's monotonic clock.
#[derive(Debug, Clone, Copy)]
pub struct WorkerState {
    pub interval_ms: u64,
    pub consecutive_errors: u32,
    pub last_flush_nanos: u64,
}

/// The queue is worth flushing: it is not empty, and it is long enough or
/// the last flush is long enough ago.
pub open spec fn should_flush_spec(queue_size: usize, last_flush_nanos: u64, now: u64) -> bool {
    queue_size > 0 && (queue_size >= MIN_FLUSH_THRESHOLD
        || (now >= last_flush_nanos && now - last_flush_nanos >= MAX_FLUSH_WAIT_NANOS))
}

impl WorkerState {
    /// The pause between cycles stays between the shortest and the longest.
    pub open spec fn wf(&self) -> bool {
        MIN_INTERVAL_MS <= self.interval_ms <= MAX_INTERVAL_MS
    }

    /// A worker that starts at `now`: shortest pause, no failures.
    pub fn new(now: u64) -> (r: Self)
        ensures
            r.wf(),
            r.interval_ms == MIN_INTERVAL_MS,
            r.consecutive_errors == 0,
            r.last_flush_nanos == now,
    {
        WorkerState { interval_ms: MIN_INTERVAL_MS, consecutive_errors: 0, last_flush_nanos: now }
    }

    /// Decides, for a queue of `queue_size` users at `now`, whether to
    /// flush and how many users to take. When there is nothing to flush,
    /// the pause doubles, up to the longest pause.
    pub fn plan_flush(&mut self, queue_size: usize, now: u64) -> (r: Option<usize>)
        requires
            old(self).wf(),
        ensures
            final(self).wf(),
            final(self).consecutive_errors == old(self).consecutive_errors,
            final(self).last_flush_nanos == old(self).last_flush_nanos,
            should_flush_spec(queue_size, old(self).last_flush_nanos, now) ==> {
                &&& r == Some(batch_size_spec(queue_size as int) as usize)
                &&& final(self).interval_ms == old(self).interval_ms
            },
            !should_flush_spec(queue_size, old(self).last_flush_nanos, now) ==> {
                &&& r is None
                &&& final(self).interval_ms == (if 2 * old(self).interval_ms < MAX_INTERVAL_MS {
                    2 * old(self).interval_ms
                } else {
                    MAX_INTERVAL_MS as int
                })
            },
    {
        let waited_long = now >= self.last_flush_nanos && now - self.last_flush_nanos >= MAX_FLUSH_WAIT_NANOS;
        if queue_size > 0 && (queue_size >= MIN_FLUSH_THRESHOLD || waited_long) {
            Some(calculate_optimal_batch_size(queue_size))
        } else {
            let doubled = self.interval_ms * 2;
            self.interval_ms = if doubled < MAX_INTERVAL_MS { doubled } else { MAX_INTERVAL_MS };
            None
        }
    }

    /// Records a successful flush at `now`: failures are forgotten and the
    /// pause is back to the shortest.
    pub fn record_success(&mut self, now: u64)
        ensures
            final(self).wf(),
            final(self).interval_ms == MIN_INTERVAL_MS,
            final(self).consecutive_errors == 0,
            final(self).last_flush_nanos == now,
    {
        self.consecutive_errors = 0;
        self.interval_ms = MIN_INTERVAL_MS;
        self.last_flush_nanos = now;
    }

    /// Records a failed flush: one more failure in a row, and a pause of
    /// `backoff_spec` with a random jitter below 100 ms.
    pub fn record_failure(&mut self)
        requires
            old(self).consecutive_errors < u32::MAX,
        ensures
            final(self).wf(),
            final(self).consecutive_errors == old(self).consecutive_errors + 1,
            final(self).last_flush_nanos == old(self).last_flush_nanos,
            exists|jitter: u64| jitter < 100
                && final(self).interval_ms == backoff_spec(final(self).consecutive_errors, jitter),
    {
        self.consecutive_errors = self.consecutive_errors + 1;
        let jitter = random_below(100);
        self.interval_ms = backoff_interval_ms(self.consecutive_errors, jitter);
        proof {
            lemma_pow2_positive(if self.consecutive_errors < 6 { self.consecutive_errors as nat } else { 6 });
        }
    }
}

/// After a failure the pause is at least 200 ms and grows with the number
/// of failures in a row until it reaches the longest pause.
pub proof fn lemma_backoff_grows(e1: u32, e2: u32, j1: u64, j2: u64)
    requires
        1 <= e1 <= e2,
        j1 < 100,
        j2 < 100,
    ensures
        backoff_spec(e1, j1) >= 200,
        backoff_spec(e1, j1) <= MAX_INTERVAL_MS,
        e1 < e2 ==> backoff_spec(e1, j1) <= backoff_spec(e2, j2),
{
    assert(pow2(0) == 1);
    assert(pow2(1) == 2);
    assert(pow2(2) == 4);
    assert(pow2(3) == 8);
    assert(pow2(4) == 16);
    assert(pow2(5) == 32);
    assert(pow2(6) == 64);
}

/// What the read of the dirty scores from Redis gave.
pub enum FetchOutcome {
    Fetched(Vec<UserScoreUpdate>),
    Failed(AppError),
    TimedOut,
}

/// What a flush does after reading the dirty scores.
pub enum AfterFetch {
    /// Redis failed: count a Redis failure and end the flush with this error.
    RedisFailed(AppError),
    /// Nothing was dirty: the flush wrote 0 rows.
    NothingToDo,
    /// Write these updates to the database.
    Persist(Vec<UserScoreUpdate>),
}

/// What the write of the scores to the database gave.
pub enum PersistOutcome {
    Persisted,
    Failed(AppError),
    TimedOut,
}

/// What a flush does after writing the scores.
pub struct AfterPersist {
    /// The result of the flush: the number of rows written, or the error.
    pub result: Result<usize, AppError>,
    /// Count a database failure (otherwise reset the failure counts).
    pub db_failed: bool,
    /// Move the updates to the dead-letter queue.
    pub move_to_dlq: bool,
}

/// Decides the next step of a flush from the read of the dirty scores.
/// A timeout becomes the internal error "Redis operation timeout".
pub fn after_fetch(o: FetchOutcome) -> (r: AfterFetch)
    ensures
        match o {
            FetchOutcome::Fetched(v) => if v@.len() == 0 { r is NothingToDo } else { r == AfterFetch::Persist(v) },
            FetchOutcome::Failed(e) => r == AfterFetch::RedisFailed(e),
            FetchOutcome::TimedOut => r matches AfterFetch::RedisFailed(AppError::Internal(m)) && m@ == "Redis operation timeout"@,
        },
{
    match o {
        FetchOutcome::Fetched(v) => if v.len() == 0 { AfterFetch::NothingToDo } else { AfterFetch::Persist(v) },
        FetchOutcome::Failed(e) => AfterFetch::RedisFailed(e),
        FetchOutcome::TimedOut => AfterFetch::RedisFailed(AppError::Internal("Redis operation timeout".to_owned())),
    }
}

/// Decides how a flush of `count` updates ends, from the write to the
/// database: a success resets the breaker counts and reports `count`; a
/// failure or a timeout ("Database operation timeout") counts a database
/// failure and moves the updates to the dead-letter queue.
pub fn after_persist(count: usize, o: PersistOutcome) -> (r: AfterPersist)
    ensures
        match o {
            PersistOutcome::Persisted => r.result == Ok::<usize, AppError>(count) && !r.db_failed && !r.move_to_dlq,
            PersistOutcome::Failed(e) => r.result == Err::<usize, AppError>(e) && r.db_failed && r.move_to_dlq,
            PersistOutcome::TimedOut => r.result matches Err(AppError::Internal(m))
                && m@ == "Database operation timeout"@ && r.db_failed && r.move_to_dlq,
        },
{
    match o {
        PersistOutcome::Persisted => AfterPersist { result: Ok(count), db_failed: false, move_to_dlq: false },
        PersistOutcome::Failed(e) => AfterPersist { result: Err(e), db_failed: true, move_to_dlq: true },
        PersistOutcome::TimedOut => AfterPersist {
            result: Err(AppError::Internal("Database operation timeout".to_owned())),
            db_failed: true,
            move_to_dlq: true,
        },
    }
}

/// Where a dead-letter retry cycle stands.
pub enum DlqState {
    /// Waiting for the size of the dead-letter set.
    AwaitSize,
    /// Waiting for a sample of its members.
    AwaitMembers,
    /// Waiting for the scores of the sampled members.
    AwaitScores,
    /// Waiting for the write of these updates to the database.
    AwaitPersist(Vec<UserScoreUpdate>),
    /// Waiting for the removal of these updates from the dead-letter queue.
    AwaitRemoval(Vec<UserScoreUpdate>),
    /// The cycle is over.
    Done,
}

/// What the dead-letter worker is told, step by step.
pub enum DlqEvent {
    Size(Result<usize, AppError>),
    Members(Result<Vec<String>, AppError>),
    Scores(Result<Vec<UserScoreUpdate>, AppError>),
    Persisted(Result<(), AppError>),
    Removed(Result<(), AppError>),
}

/// What the dead-letter worker does next.
pub enum DlqAction {
    /// Sample this many members of the dead-letter set.
    SampleMembers(usize),
    /// Read the scores of these members.
    ReadScores(Vec<String>),
    /// Write these updates to the database.
    Persist(Vec<UserScoreUpdate>),
    /// Remove these updates from the dead-letter queue.
    Remove(Vec<UserScoreUpdate>),
    /// Nothing more in this cycle.
    Rest,
}

/// The event fits the state: each state waits for one kind of event.
pub open spec fn dlq_event_fits(s: DlqState, e: DlqEvent) -> bool {
    match (s, e) {
        (DlqState::AwaitSize, DlqEvent::Size(_)) => true,
        (DlqState::AwaitMembers, DlqEvent::Members(_)) => true,
        (DlqState::AwaitScores, DlqEvent::Scores(_)) => true,
        (DlqState::AwaitPersist(_), DlqEvent::Persisted(_)) => true,
        (DlqState::AwaitRemoval(_), DlqEvent::Removed(_)) => true,
        _ => false,
    }
}

pub open spec fn dlq_rank(s: DlqState) -> nat {
    match s {
        DlqState::AwaitSize => 5,
        DlqState::AwaitMembers => 4,
        DlqState::AwaitScores => 3,
        DlqState::AwaitPersist(_) => 2,
        DlqState::AwaitRemoval(_) => 1,
        DlqState::Done => 0,
    }
}

/// The first step of a dead-letter retry cycle: ask for the size.
pub fn dlq_start() -> (r: DlqState)
    ensures
        r is AwaitSize,
{
    DlqState::AwaitSize
}

/// One step of a dead-letter retry cycle. A failed call ends the cycle (the
/// items stay for the next one); an empty set or sample ends it; updates
/// are removed from the queue only after the database has taken them.
pub fn dlq_step(s: DlqState, e: DlqEvent) -> (r: (DlqState, DlqAction))
    requires
        dlq_event_fits(s, e),
    ensures
        dlq_rank(r.0) < dlq_rank(s),
        (r.1 is Rest) <==> (r.0 is Done),
        r.1 is Remove ==> (s is AwaitPersist && e matches DlqEvent::Persisted(Ok(()))),
        match (s, e) {
            (DlqState::AwaitSize, DlqEvent::Size(Ok(n))) => if n == 0 { r.0 is Done } else {
                r.0 is AwaitMembers && r.1 == DlqAction::SampleMembers(DLQ_RETRY_BATCH)
            },
            (DlqState::AwaitMembers, DlqEvent::Members(Ok(ids))) => if ids@.len() == 0 { r.0 is Done } else {
                r.0 is AwaitScores && r.1 == DlqAction::ReadScores(ids)
            },
            (DlqState::AwaitScores, DlqEvent::Scores(Ok(us))) => r.0 == DlqState::AwaitPersist(us)
                && (r.1 matches DlqAction::Persist(c) && c@ == us@),
            (DlqState::AwaitPersist(us), DlqEvent::Persisted(Ok(()))) => r.0 == DlqState::AwaitRemoval(us)
                && (r.1 matches DlqAction::Remove(c) && c@ == us@),
            _ => r.0 is Done,
        },
{
    match (s, e) {
        (DlqState::AwaitSize, DlqEvent::Size(Ok(n))) => {
            if n == 0 {
                (DlqState::Done, DlqAction::Rest)
            } else {
                (DlqState::AwaitMembers, DlqAction::SampleMembers(DLQ_RETRY_BATCH))
            }
        },
        (DlqState::AwaitMembers, DlqEvent::Members(Ok(ids))) => {
            if ids.len() == 0 {
                (DlqState::Done, DlqAction::Rest)
            } else {
                (DlqState::AwaitScores, DlqAction::ReadScores(ids))
            }
        },
        (DlqState::AwaitScores, DlqEvent::Scores(Ok(us))) => {
            let copy = clone_updates(&us);
            (DlqState::AwaitPersist(us), DlqAction::Persist(copy))
        },
        (DlqState::AwaitPersist(us), DlqEvent::Persisted(Ok(()))) => {
            let copy = clone_updates(&us);
            (DlqState::AwaitRemoval(us), DlqAction::Remove(copy))
        },
        _ => (DlqState::Done, DlqAction::Rest),
    }
}

/// A copy of a list of updates.
pub fn clone_updates(v: &Vec<UserScoreUpdate>) -> (r: Vec<UserScoreUpdate>)
    ensures
        r@ == v@,
{
    let mut r: Vec<UserScoreUpdate> = Vec::new();
    let mut i: usize = 0;
    while i < v.len()
        invariant
            i <= v@.len(),
            r@ == v@.take(i as int),
        decreases v@.len() - i,
    {
        r.push(v[i]);
        assert(v@.take(i + 1) =~= v@.take(i as int).push(v@[i as int]));
        i = i + 1;
    }
    assert(v@.take(i as int) =~= v@);
    r
}

} // verus!
