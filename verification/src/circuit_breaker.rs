//! How failures and successes move the two circuit breakers, and how the
//! monitor closes them again after a quiet period.

use vstd::prelude::*;
use crate::state::CircuitBreakerState;

verus! {

/// Failures after which a breaker opens.
pub const FAILURE_THRESHOLD: u32 = 5;

/// Quiet time after the last failure, in nanoseconds, after which the
/// monitor closes an open breaker.
pub const RECOVERY_NANOS: u64 = 30_000_000_000;

/// Which breaker an error message points at.
#[derive(Debug, Clone, Copy, PartialEq, Eq)]
pub enum ErrorSource {
    Redis,
    Database,
    Other,
}

/// How a health check of a store ended.
#[derive(Debug, Clone, Copy, PartialEq, Eq, Structural)]
pub enum ProbeOutcome {
    Healthy,
    Failed,
    TimedOut,
}

/// What one pass of the breaker monitor did.
#[derive(Debug, Clone, Copy)]
pub struct MonitorReport {
    /// The Redis breaker was open and has been closed.
    pub closed_redis: bool,
    /// The database breaker was open and has been closed.
    pub closed_db: bool,
    /// Some breaker was open before the pass and none is open after it.
    pub all_recovered: bool,
    /// Some breaker is still open after the pass.
    pub still_open: bool,
}

/// `s` holds `needle` as a contiguous run.
pub open spec fn contains_text(s: Seq<char>, needle: Seq<char>) -> bool {
    exists|i: int| 0 <= i && i + needle.len() <= s.len() && #[trigger] s.subrange(i, i + needle.len()) == needle
}

/// The lower-case form of a text, as `str::to_lowercase` gives it.
pub uninterp spec fn lowercase(s: Seq<char>) -> Seq<char>;

/// An ASCII character in lower case: `A`..`Z` become `a`..`z`, the rest stay.
pub open spec fn ascii_lower(c: char) -> char {
    if 'A' <= c && c <= 'Z' {
        ((c as int) + 32) as char
    } else {
        c
    }
}

/// All characters are ASCII.
pub open spec fn is_ascii_text(s: Seq<char>) -> bool {
    forall|i: int| 0 <= i < s.len() ==> (#[trigger] s[i] as int) < 128
}

/// `str::to_lowercase` from std: the Unicode lower-case form of `s`, a
/// function of `s`. For an ASCII text it is the text with `A`..`Z` turned
/// into `a`..`z`; what it gives for other characters (Unicode's tables) is
/// not stated.
#[verifier::external_body]
fn to_lowercase(s: &str) -> (r: String)
    ensures
        r@ == lowercase(s@),
        is_ascii_text(s@) ==> r@ == s@.map_values(|c: char| ascii_lower(c)),
{
    s.to_lowercase()
}

pub open spec fn error_source_spec(message: Seq<char>) -> ErrorSource {
    source_of_lowered(lowercase(message))
}

/// The breaker that a lower-cased message points at.
pub open spec fn source_of_lowered(m: Seq<char>) -> ErrorSource {
    if contains_text(m, seq!['r', 'e', 'd', 'i', 's']) {
        ErrorSource::Redis
    } else if contains_text(m, seq!['d', 'a', 't', 'a', 'b', 'a', 's', 'e']) || contains_text(m, seq!['d', 'b']) {
        ErrorSource::Database
    } else {
        ErrorSource::Other
    }
}

/// Whether `needle` occurs in `s`.
pub fn contains_chars(s: &Vec<char>, needle: &Vec<char>) -> (r: bool)
    ensures
        r == contains_text(s@, needle@),
{
    let n = s.len();
    let m = needle.len();
    if m > n {
        assert forall|i: int| 0 <= i && i + m <= n implies #[trigger] s@.subrange(i, i + m) != needle@ by {}
        return false;
    }
    let mut i: usize = 0;
    while i <= n - m
        invariant
            m <= n,
            i <= n - m + 1,
            n == s@.len(),
            m == needle@.len(),
            forall|k: int| 0 <= k < i ==> #[trigger] s@.subrange(k, k + m) != needle@,
        decreases n - i,
    {
        let mut j: usize = 0;
        let mut same = true;
        while j < m
            invariant
                j <= m,
                i + m <= n,
                n == s@.len(),
                m == needle@.len(),
                same == (forall|t: int| 0 <= t < j ==> s@[i + t] == needle@[t]),
            decreases m - j,
        {
            if s[i + j] != needle[j] {
                same = false;
            }
            j = j + 1;
        }
        if same {
            assert(s@.subrange(i as int, i + m) =~= needle@);
            return true;
        }
        assert(s@.subrange(i as int, i + m) != needle@) by {
            let t = choose|t: int| 0 <= t < m && s@[i + t] != needle@[t];
            assert(s@.subrange(i as int, i + m)[t] == s@[i + t]);
        }
        i = i + 1;
    }
    false
}

/// Which breaker an error belongs to, judged by its message once
/// lower-cased: "redis" means Redis, else "database" or "db" means the
/// database, else neither.
pub fn error_source(message: &str) -> (r: ErrorSource)
    ensures
        r == error_source_spec(message@),
        is_ascii_text(message@) ==> r == source_of_lowered(message@.map_values(|c: char| ascii_lower(c))),
{
    let lower = to_lowercase(message);
    let cs = crate::decimal::chars_of(lower.as_str());
    let redis: Vec<char> = vec!['r', 'e', 'd', 'i', 's'];
    let database: Vec<char> = vec!['d', 'a', 't', 'a', 'b', 'a', 's', 'e'];
    let db: Vec<char> = vec!['d', 'b'];
    assert(redis@ =~= seq!['r', 'e', 'd', 'i', 's']);
    assert(database@ =~= seq!['d', 'a', 't', 'a', 'b', 'a', 's', 'e']);
    assert(db@ =~= seq!['d', 'b']);
    if contains_chars(&cs, &redis) {
        ErrorSource::Redis
    } else if contains_chars(&cs, &database) || contains_chars(&cs, &db) {
        ErrorSource::Database
    } else {
        ErrorSource::Other
    }
}

/// The breaker state after one more Redis failure at `now`, and whether
/// that failure opened the breaker.
pub open spec fn redis_failure_spec(s: CircuitBreakerState, now: u64) -> (CircuitBreakerState, bool) {
    let failures = (s.redis_failures + 1) as u32;
    let trips = failures >= FAILURE_THRESHOLD && !s.is_redis_open;
    (CircuitBreakerState {
        redis_failures: failures,
        last_failure_time: Some(now),
        is_redis_open: s.is_redis_open || trips,
        ..s
    }, trips)
}

/// The breaker state after one more database failure at `now`, and whether
/// that failure opened the breaker.
pub open spec fn db_failure_spec(s: CircuitBreakerState, now: u64) -> (CircuitBreakerState, bool) {
    let failures = (s.db_failures + 1) as u32;
    let trips = failures >= FAILURE_THRESHOLD && !s.is_db_open;
    (CircuitBreakerState {
        db_failures: failures,
        last_failure_time: Some(now),
        is_db_open: s.is_db_open || trips,
        ..s
    }, trips)
}

/// After a success both failure counts are zero; the open flags stay.
pub open spec fn success_spec(s: CircuitBreakerState) -> CircuitBreakerState {
    if s.redis_failures > 0 || s.db_failures > 0 {
        CircuitBreakerState { redis_failures: 0, db_failures: 0, ..s }
    } else {
        s
    }
}

/// The quiet period since the last failure is over at `now`.
pub open spec fn recovered_spec(s: CircuitBreakerState, now: u64) -> bool {
    match s.last_failure_time {
        Some(t) => now >= t && now - t > RECOVERY_NANOS,
        None => false,
    }
}

/// One monitor pass at `now`: once the quiet period is over, each open
/// breaker is closed and its failure count set to zero.
pub open spec fn monitor_spec(s: CircuitBreakerState, now: u64) -> CircuitBreakerState {
    if recovered_spec(s, now) {
        CircuitBreakerState {
            redis_failures: if s.is_redis_open { 0 } else { s.redis_failures },
            db_failures: if s.is_db_open { 0 } else { s.db_failures },
            is_redis_open: false,
            is_db_open: false,
            ..s
        }
    } else {
        s
    }
}

/// The breaker state after the health checks of Redis and the database at
/// `now`, and whether each recorded failure tripped its breaker: a check
/// that failed or timed out counts as a failure of its store, Redis first.
pub open spec fn probes_spec(s: CircuitBreakerState, redis: ProbeOutcome, db: ProbeOutcome, now: u64)
    -> (CircuitBreakerState, bool, bool)
{
    let a = if redis == ProbeOutcome::Healthy { (s, false) } else { redis_failure_spec(s, now) };
    let b = if db == ProbeOutcome::Healthy { (a.0, false) } else { db_failure_spec(a.0, now) };
    (b.0, a.1, b.1)
}

/// An open breaker has seen a failure: whenever a breaker is open, the
/// time of the last failure is known.
pub open spec fn breaker_consistent(s: CircuitBreakerState) -> bool {
    (s.is_redis_open || s.is_db_open) ==> s.last_failure_time is Some
}

impl CircuitBreakerState {
    /// Whether either breaker is open; the flush workers pause while one is.
    pub fn any_open(&self) -> (r: bool)
        ensures
            r == (self.is_redis_open || self.is_db_open),
    {
        self.is_redis_open || self.is_db_open
    }

    /// Records a Redis failure at `now`; returns whether the Redis breaker
    /// opened because of it (the caller then counts a trip).
    pub fn record_redis_failure(&mut self, now: u64) -> (tripped: bool)
        requires
            old(self).redis_failures < u32::MAX,
        ensures
            (*final(self), tripped) == redis_failure_spec(*old(self), now),
    {
        self.redis_failures = self.redis_failures + 1;
        self.last_failure_time = Some(now);
        if self.redis_failures >= FAILURE_THRESHOLD && !self.is_redis_open {
            self.is_redis_open = true;
            true
        } else {
            false
        }
    }

    /// Records a database failure at `now`; returns whether the database
    /// breaker opened because of it.
    pub fn record_db_failure(&mut self, now: u64) -> (tripped: bool)
        requires
            old(self).db_failures < u32::MAX,
        ensures
            (*final(self), tripped) == db_failure_spec(*old(self), now),
    {
        self.db_failures = self.db_failures + 1;
        self.last_failure_time = Some(now);
        if self.db_failures >= FAILURE_THRESHOLD && !self.is_db_open {
            self.is_db_open = true;
            true
        } else {
            false
        }
    }

    /// Records a successful flush: the failure counts go back to zero, but
    /// an open breaker stays open (only the monitor closes it). Returns
    /// whether there was anything to reset.
    pub fn record_success(&mut self) -> (reset: bool)
        ensures
            *final(self) == success_spec(*old(self)),
            reset == (old(self).redis_failures > 0 || old(self).db_failures > 0),
    {
        if self.redis_failures > 0 || self.db_failures > 0 {
            self.redis_failures = 0;
            self.db_failures = 0;
            true
        } else {
            false
        }
    }

    /// Records the health checks of Redis and the database at `now`: a
    /// check that failed or timed out is a failure of its store. Returns
    /// whether the Redis and the database breaker tripped.
    pub fn record_probes(&mut self, redis: ProbeOutcome, db: ProbeOutcome, now: u64) -> (r: (bool, bool))
        requires
            redis != ProbeOutcome::Healthy ==> old(self).redis_failures < u32::MAX,
            db != ProbeOutcome::Healthy ==> old(self).db_failures < u32::MAX,
        ensures
            (*final(self), r.0, r.1) == probes_spec(*old(self), redis, db, now),
            redis != ProbeOutcome::Healthy ==> final(self).redis_failures == old(self).redis_failures + 1,
            db != ProbeOutcome::Healthy ==> final(self).db_failures == old(self).db_failures + 1,
            (redis != ProbeOutcome::Healthy || db != ProbeOutcome::Healthy) ==> final(self).last_failure_time == Some(now),
    {
        let redis_tripped = match redis {
            ProbeOutcome::Healthy => false,
            _ => self.record_redis_failure(now),
        };
        let db_tripped = match db {
            ProbeOutcome::Healthy => false,
            _ => self.record_db_failure(now),
        };
        (redis_tripped, db_tripped)
    }

    /// One pass of the breaker monitor at `now`.
    pub fn monitor_pass(&mut self, now: u64) -> (report: MonitorReport)
        ensures
            *final(self) == monitor_spec(*old(self), now),
            (old(self).is_redis_open && !final(self).is_redis_open) ==> final(self).redis_failures == 0,
            (old(self).is_db_open && !final(self).is_db_open) ==> final(self).db_failures == 0,
            report.closed_redis == (old(self).is_redis_open && !final(self).is_redis_open),
            report.closed_db == (old(self).is_db_open && !final(self).is_db_open),
            report.all_recovered == ((old(self).is_redis_open || old(self).is_db_open)
                && !final(self).is_redis_open && !final(self).is_db_open),
            report.still_open == (final(self).is_redis_open || final(self).is_db_open),
    {
        let was_open = self.is_redis_open || self.is_db_open;
        let mut closed_redis = false;
        let mut closed_db = false;
        match self.last_failure_time {
            Some(last) => {
                if now >= last && now - last > RECOVERY_NANOS {
                    if self.is_redis_open {
                        self.is_redis_open = false;
                        self.redis_failures = 0;
                        closed_redis = true;
                    }
                    if self.is_db_open {
                        self.is_db_open = false;
                        self.db_failures = 0;
                        closed_db = true;
                    }
                }
            },
            None => {},
        }
        MonitorReport {
            closed_redis,
            closed_db,
            all_recovered: was_open && !self.is_redis_open && !self.is_db_open,
            still_open: self.is_redis_open || self.is_db_open,
        }
    }
}

/// Every breaker operation keeps "an open breaker has seen a failure":
/// failures record their time, a success never opens a breaker, and the
/// monitor only closes breakers.
pub proof fn lemma_breaker_consistent_preserved(s: CircuitBreakerState, now: u64)
    requires
        breaker_consistent(s),
    ensures
        breaker_consistent(redis_failure_spec(s, now).0),
        breaker_consistent(db_failure_spec(s, now).0),
        breaker_consistent(success_spec(s)),
        breaker_consistent(monitor_spec(s, now)),
{
}

/// A breaker trips at most once until it is closed again: a failure that
/// finds the breaker open does not trip it, and a trip always leaves the
/// breaker open.
pub proof fn lemma_trip_only_when_closing_to_open(s: CircuitBreakerState, now: u64)
    ensures
        redis_failure_spec(s, now).1 <==> (!s.is_redis_open && redis_failure_spec(s, now).0.is_redis_open),
        db_failure_spec(s, now).1 <==> (!s.is_db_open && db_failure_spec(s, now).0.is_db_open),
{
}

/// Five failures in a row, with no success between them, open a closed
/// breaker that had seen none: the fifth failure trips it.
pub proof fn lemma_fifth_redis_failure_trips(s: CircuitBreakerState, t1: u64, t2: u64, t3: u64, t4: u64, t5: u64)
    requires
        s.redis_failures == 0,
        !s.is_redis_open,
    ensures
        ({
            let a = redis_failure_spec(s, t1);
            let b = redis_failure_spec(a.0, t2);
            let c = redis_failure_spec(b.0, t3);
            let d = redis_failure_spec(c.0, t4);
            let e = redis_failure_spec(d.0, t5);
            !a.1 && !b.1 && !c.1 && !d.1 && e.1 && e.0.is_redis_open
        }),
{
}

/// The breaker state after Redis failures at `times`, one after the other,
/// and how many of those failures tripped the Redis breaker.
pub open spec fn redis_failure_run(s: CircuitBreakerState, times: Seq<u64>) -> (CircuitBreakerState, nat)
    decreases times.len(),
{
    if times.len() == 0 {
        (s, 0)
    } else {
        let prev = redis_failure_run(s, times.drop_last());
        let step = redis_failure_spec(prev.0, times.last());
        (step.0, prev.1 + if step.1 { 1nat } else { 0nat })
    }
}

/// Consecutive Redis failures, with no success between them, on a closed
/// breaker that had counted none: after `k` of them the count is `k`, the
/// breaker is open exactly when `k >= 5`, it has tripped once if `k >= 5`
/// and never otherwise (so exactly at the fifth), the last failure's time
/// is recorded, and the database breaker is untouched.
pub proof fn lemma_redis_failures_trip_once(s: CircuitBreakerState, times: Seq<u64>)
    requires
        s.redis_failures == 0,
        !s.is_redis_open,
        times.len() <= u32::MAX,
    ensures
        ({
            let r = redis_failure_run(s, times);
            let k = times.len();
            &&& r.0.redis_failures == k
            &&& r.0.is_redis_open == (k >= 5)
            &&& r.1 == (if k >= 5 { 1nat } else { 0nat })
            &&& r.0.db_failures == s.db_failures
            &&& r.0.is_db_open == s.is_db_open
            &&& k > 0 ==> r.0.last_failure_time == Some(times.last())
        }),
    decreases times.len(),
{
    if times.len() > 0 {
        lemma_redis_failures_trip_once(s, times.drop_last());
    }
}

/// What a monitor pass does, field by field: once more than 30 s have
/// passed since the last failure, each open breaker is closed and its
/// failure count set to 0; a breaker that was already closed keeps its
/// count; before the quiet period is over nothing changes; the time of the
/// last failure is kept.
pub proof fn lemma_monitor_closes_and_resets(s: CircuitBreakerState, now: u64)
    ensures
        ({
            let quiet = match s.last_failure_time {
                Some(t) => now >= t && now - t > 30_000_000_000,
                None => false,
            };
            let f = monitor_spec(s, now);
            &&& f.is_redis_open == (s.is_redis_open && !quiet)
            &&& f.is_db_open == (s.is_db_open && !quiet)
            &&& (s.is_redis_open && !f.is_redis_open) ==> f.redis_failures == 0
            &&& (s.is_db_open && !f.is_db_open) ==> f.db_failures == 0
            &&& !(s.is_redis_open && !f.is_redis_open) ==> f.redis_failures == s.redis_failures
            &&& !(s.is_db_open && !f.is_db_open) ==> f.db_failures == s.db_failures
            &&& f.last_failure_time == s.last_failure_time
        }),
{
}

/// What the health checks do, field by field: a check of a store that
/// failed or timed out adds one to that store's failure count and records
/// `now` as the time of the last failure; a healthy check leaves its
/// store's count as it was; two healthy checks change nothing. A breaker
/// trips exactly when its count reaches 5 while it was closed.
pub proof fn lemma_probes_count_failures(s: CircuitBreakerState, redis: ProbeOutcome, db: ProbeOutcome, now: u64)
    requires
        s.redis_failures < u32::MAX,
        s.db_failures < u32::MAX,
    ensures
        ({
            let (f, redis_tripped, db_tripped) = probes_spec(s, redis, db, now);
            &&& redis != ProbeOutcome::Healthy ==> f.redis_failures == s.redis_failures + 1
            &&& redis == ProbeOutcome::Healthy ==> f.redis_failures == s.redis_failures
            &&& db != ProbeOutcome::Healthy ==> f.db_failures == s.db_failures + 1
            &&& db == ProbeOutcome::Healthy ==> f.db_failures == s.db_failures
            &&& (redis != ProbeOutcome::Healthy || db != ProbeOutcome::Healthy) ==> f.last_failure_time == Some(now)
            &&& (redis == ProbeOutcome::Healthy && db == ProbeOutcome::Healthy) ==> f == s
            &&& redis_tripped == (redis != ProbeOutcome::Healthy && !s.is_redis_open && s.redis_failures + 1 >= 5)
            &&& db_tripped == (db != ProbeOutcome::Healthy && !s.is_db_open && s.db_failures + 1 >= 5)
            &&& f.is_redis_open == (s.is_redis_open || redis_tripped)
            &&& f.is_db_open == (s.is_db_open || db_tripped)
        }),
{
}

/// A success never closes a breaker, and the monitor never opens one.
pub proof fn lemma_only_monitor_closes(s: CircuitBreakerState, now: u64)
    ensures
        success_spec(s).is_redis_open == s.is_redis_open,
        success_spec(s).is_db_open == s.is_db_open,
        monitor_spec(s, now).is_redis_open ==> s.is_redis_open,
        monitor_spec(s, now).is_db_open ==> s.is_db_open,
        !recovered_spec(s, now) ==> monitor_spec(s, now) == s,
{
}

} // verus!
