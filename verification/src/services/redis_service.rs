//! The keys under which the game keeps its state in Redis, and how the
//! replies of Redis are read back into score updates and user stats.

use vstd::prelude::*;
use vstd::string::StringExecFns;
use crate::decimal::{decimal_text, format_i64, parse_i64, parse_i64_spec, lemma_i64_text_round_trip};
use crate::models::player::UserScoreUpdate;

verus! {

/// The set of users whose cached score has not been written to the database.
pub const DIRTY_SET_KEY: &'static str = "dirty_users";

/// The set of users whose score failed to reach the database.
pub const DLQ_SET_KEY: &'static str = "dlq_users";

/// Seconds that a user's cached state lives after the last write (7 days).
pub const USER_TTL_SECS: i64 = 604800;

/// Seconds that a failed score stays in the dead-letter queue (14 days).
pub const DLQ_TTL_SECS: i64 = 1209600;

/// Energy of a user whose cached entry holds none.
pub const DEFAULT_ENERGY: i32 = 1000;

/// The outcome of one atomic tap.
#[derive(Debug, Clone, Copy)]
pub struct TapResult {
    pub new_score: i64,
    pub new_energy: i32,
}

/// A user's score and energy.
#[derive(Debug, Clone, Copy)]
pub struct UserStats {
    pub score: i64,
    pub energy: i32,
}

/// The answer of a Redis health check.
#[derive(Debug, Clone, Copy)]
pub struct RedisHealth {
    pub is_healthy: bool,
    pub response_time_ms: u64,
    pub pool_size: usize,
    pub available_connections: usize,
}

/// The key of a user's cached state: `user:` and the id.
pub fn user_key(user_id: i64) -> (r: String)
    ensures
        r@ == "user:"@ + decimal_text(user_id as int),
{
    let mut r = "user:".to_owned();
    let id = format_i64(user_id);
    r.append(id.as_str());
    r
}

/// The key under which the dead-letter queue keeps the score of a member
/// of the dead-letter set: `dlq:user:` and the member.
pub fn dlq_key(member: &str) -> (r: String)
    ensures
        r@ == "dlq:user:"@ + member@,
{
    let mut r = "dlq:user:".to_owned();
    r.append(member);
    r
}

/// The score updates that the batch-clear script reports: its reply is a
/// flat list of (user id, score) pairs; a trailing odd element is dropped,
/// and a pair of which either part is not an `i64` is skipped.
pub open spec fn dirty_updates_spec(raw: Seq<Seq<char>>) -> Seq<UserScoreUpdate>
    decreases raw.len(),
{
    if raw.len() < 2 {
        Seq::empty()
    } else {
        let rest = dirty_updates_spec(raw.skip(2));
        match (parse_i64_spec(raw[0]), parse_i64_spec(raw[1])) {
            (Some(u), Some(s)) => seq![UserScoreUpdate { user_id: u as i64, new_score: s as i64 }] + rest,
            _ => rest,
        }
    }
}

pub open spec fn texts(v: Seq<String>) -> Seq<Seq<char>> {
    v.map_values(|s: String| s@)
}

/// Reads the reply of the batch-clear script into score updates, in reply
/// order.
pub fn parse_dirty_scores(raw: &Vec<String>) -> (r: Vec<UserScoreUpdate>)
    ensures
        r@ == dirty_updates_spec(texts(raw@)),
{
    let ghost all = texts(raw@);
    let mut out: Vec<UserScoreUpdate> = Vec::new();
    let n = raw.len();
    let mut i: usize = 0;
    assert(all.skip(0) =~= all);
    assert(out@ + dirty_updates_spec(all) =~= dirty_updates_spec(all));
    while n - i >= 2
        invariant
            i <= n,
            n == raw@.len(),
            all == texts(raw@),
            dirty_updates_spec(all) == out@ + dirty_updates_spec(all.skip(i as int)),
        decreases n - i,
    {
        let ghost rest = all.skip(i as int);
        assert(rest.skip(2) =~= all.skip(i + 2));
        assert(rest[0] == raw@[i as int]@);
        assert(rest[1] == raw@[i + 1]@);
        let u = parse_i64(raw[i].as_str());
        let s = parse_i64(raw[i + 1].as_str());
        match (u, s) {
            (Some(user_id), Some(new_score)) => {
                out.push(UserScoreUpdate { user_id, new_score });
                assert(dirty_updates_spec(all) =~= out@ + dirty_updates_spec(all.skip(i + 2)));
            },
            _ => {},
        }
        i = i + 2;
    }
    assert(all.skip(i as int).len() < 2);
    assert(out@ + dirty_updates_spec(all.skip(i as int)) =~= out@);
    out
}

/// The reply of the batch-clear script for users whose ids and scores are
/// stored as decimal text: id, score, id, score, ...
pub open spec fn dirty_reply_spec(updates: Seq<UserScoreUpdate>) -> Seq<Seq<char>>
    decreases updates.len(),
{
    if updates.len() == 0 {
        Seq::empty()
    } else {
        seq![decimal_text(updates[0].user_id as int), decimal_text(updates[0].new_score as int)]
            + dirty_reply_spec(updates.drop_first())
    }
}

/// What the tap script stores comes back out of the batch-clear reply: a
/// reply that lists users and scores in decimal reads back as exactly those
/// updates, in order.
pub proof fn lemma_dirty_reply_round_trip(updates: Seq<UserScoreUpdate>)
    ensures
        dirty_updates_spec(dirty_reply_spec(updates)) == updates,
    decreases updates.len(),
{
    if updates.len() > 0 {
        let u = updates[0];
        let raw = dirty_reply_spec(updates);
        lemma_i64_text_round_trip(u.user_id);
        lemma_i64_text_round_trip(u.new_score);
        lemma_dirty_reply_round_trip(updates.drop_first());
        assert(raw.skip(2) =~= dirty_reply_spec(updates.drop_first()));
        assert(raw[0] == decimal_text(u.user_id as int));
        assert(raw[1] == decimal_text(u.new_score as int));
        assert(dirty_updates_spec(raw) =~= updates);
    } else {
        assert(dirty_updates_spec(dirty_reply_spec(updates)) =~= updates);
    }
}

/// Pairs the members read from the dead-letter set with the scores read
/// for them: the two lists are zipped (stopping at the shorter), and a pair
/// is kept when the member is an `i64` and a score was found.
pub open spec fn dlq_updates_spec(ids: Seq<Seq<char>>, scores: Seq<Option<i64>>) -> Seq<UserScoreUpdate>
    decreases ids.len(),
{
    if ids.len() == 0 || scores.len() == 0 {
        Seq::empty()
    } else {
        let rest = dlq_updates_spec(ids.drop_first(), scores.drop_first());
        match (parse_i64_spec(ids[0]), scores[0]) {
            (Some(u), Some(s)) => seq![UserScoreUpdate { user_id: u as i64, new_score: s }] + rest,
            _ => rest,
        }
    }
}

/// Pairs dead-letter members with the scores stored for them.
pub fn pair_dlq_scores(ids: &Vec<String>, scores: &Vec<Option<i64>>) -> (r: Vec<UserScoreUpdate>)
    ensures
        r@ == dlq_updates_spec(texts(ids@), scores@),
{
    let ghost all = texts(ids@);
    let mut out: Vec<UserScoreUpdate> = Vec::new();
    let n = if ids.len() < scores.len() { ids.len() } else { scores.len() };
    let mut i: usize = 0;
    assert(all.skip(0) =~= all);
    assert(scores@.skip(0) =~= scores@);
    assert(out@ + dlq_updates_spec(all, scores@) =~= dlq_updates_spec(all, scores@));
    while i < n
        invariant
            i <= n,
            n <= ids@.len(),
            n <= scores@.len(),
            n == ids@.len() || n == scores@.len(),
            all == texts(ids@),
            dlq_updates_spec(all, scores@) == out@ + dlq_updates_spec(all.skip(i as int), scores@.skip(i as int)),
        decreases n - i,
    {
        assert(all.skip(i as int).drop_first() =~= all.skip(i + 1));
        assert(scores@.skip(i as int).drop_first() =~= scores@.skip(i + 1));
        assert(all.skip(i as int)[0] == ids@[i as int]@);
        let id = parse_i64(ids[i].as_str());
        match (id, scores[i]) {
            (Some(user_id), Some(new_score)) => {
                out.push(UserScoreUpdate { user_id, new_score });
                assert(dlq_updates_spec(all, scores@) =~= out@ + dlq_updates_spec(all.skip(i + 1), scores@.skip(i + 1)));
            },
            _ => {},
        }
        i = i + 1;
    }
    assert(all.skip(i as int).len() == 0 || scores@.skip(i as int).len() == 0);
    assert(out@ + dlq_updates_spec(all.skip(i as int), scores@.skip(i as int)) =~= out@);
    out
}

/// The members under which `move_to_dlq` files updates: each user id in
/// decimal.
pub open spec fn dlq_members_spec(updates: Seq<UserScoreUpdate>) -> Seq<Seq<char>> {
    updates.map_values(|u: UserScoreUpdate| decimal_text(u.user_id as int))
}

/// The members of the dead-letter set for a list of updates, in order.
pub fn dlq_members(updates: &Vec<UserScoreUpdate>) -> (r: Vec<String>)
    ensures
        texts(r@) == dlq_members_spec(updates@),
{
    let mut out: Vec<String> = Vec::new();
    let mut i: usize = 0;
    while i < updates.len()
        invariant
            i <= updates@.len(),
            texts(out@) =~= dlq_members_spec(updates@.take(i as int)),
        decreases updates@.len() - i,
    {
        let s = format_i64(updates[i].user_id);
        out.push(s);
        assert(dlq_members_spec(updates@.take(i + 1)) =~= dlq_members_spec(updates@.take(i as int)).push(s@));
        i = i + 1;
    }
    assert(updates@.take(i as int) =~= updates@);
    out
}

/// What goes into the dead-letter queue comes back out of it: reading the
/// members that `move_to_dlq` writes, with the scores it stores under them,
/// gives back exactly the updates that were moved, in order.
pub proof fn lemma_dlq_round_trip(updates: Seq<UserScoreUpdate>)
    ensures
        dlq_updates_spec(
            dlq_members_spec(updates),
            updates.map_values(|u: UserScoreUpdate| Some(u.new_score)),
        ) == updates,
    decreases updates.len(),
{
    let scores = updates.map_values(|u: UserScoreUpdate| Some(u.new_score));
    if updates.len() > 0 {
        let u = updates[0];
        lemma_i64_text_round_trip(u.user_id);
        lemma_dlq_round_trip(updates.drop_first());
        assert(dlq_members_spec(updates).drop_first() =~= dlq_members_spec(updates.drop_first()));
        assert(scores.drop_first() =~= updates.drop_first().map_values(|u: UserScoreUpdate| Some(u.new_score)));
        assert(dlq_updates_spec(dlq_members_spec(updates), scores) =~= updates);
    } else {
        assert(dlq_updates_spec(dlq_members_spec(updates), scores) =~= updates);
    }
}

/// The stats of a cached user whose `score` and `energy` fields read
/// `score` and `energy`: `None` when both are missing (a cache miss).
pub open spec fn stats_spec(score: Option<i64>, energy: Option<i32>) -> Option<UserStats> {
    if score is None && energy is None {
        None
    } else {
        Some(UserStats {
            score: match score { Some(s) => s, None => 0 },
            energy: match energy { Some(e) => e, None => DEFAULT_ENERGY },
        })
    }
}

/// Reads the `score` and `energy` fields of a cached user: `None` when the
/// user has neither (a cache miss); otherwise a missing score counts as 0
/// and a missing energy as 1000.
pub fn stats_from_fields(score: Option<i64>, energy: Option<i32>) -> (r: Option<UserStats>)
    ensures
        r == stats_spec(score, energy),
        r is None <==> (score is None && energy is None),
        r matches Some(st) ==> st.score == (match score { Some(s) => s, None => 0 })
            && st.energy == (match energy { Some(e) => e, None => DEFAULT_ENERGY }),
{
    if score.is_none() && energy.is_none() {
        return None;
    }
    let s = match score {
        Some(s) => s,
        None => 0,
    };
    let e = match energy {
        Some(e) => e,
        None => DEFAULT_ENERGY,
    };
    Some(UserStats { score: s, energy: e })
}

/// The key of a user's cached state, as `user_key` writes it.
pub open spec fn user_key_text(user_id: i64) -> Seq<char> {
    "user:"@ + decimal_text(user_id as int)
}

/// Two different ids have different texts.
proof fn lemma_decimal_text_injective(a: i64, b: i64)
    requires
        a != b,
    ensures
        decimal_text(a as int) != decimal_text(b as int),
{
    lemma_i64_text_round_trip(a);
    lemma_i64_text_round_trip(b);
}

proof fn lemma_user_key_injective(a: i64, b: i64)
    requires
        a != b,
    ensures
        user_key_text(a) != user_key_text(b),
{
    lemma_decimal_text_injective(a, b);
    let p = "user:"@;
    assert((p + decimal_text(a as int)).skip(p.len() as int) =~= decimal_text(a as int));
    assert((p + decimal_text(b as int)).skip(p.len() as int) =~= decimal_text(b as int));
}

/// A cache of users: under each key, the `score` and `energy` fields of the
/// entry (either may be missing).
pub open spec fn warm_up_store(
    store: Map<Seq<char>, (Option<i64>, Option<i32>)>,
    user_id: i64,
    score: i64,
    energy: i32,
) -> Map<Seq<char>, (Option<i64>, Option<i32>)> {
    store.insert(user_key_text(user_id), (Some(score), Some(energy)))
}

/// The stats that reading a user's `score` and `energy` from the cache gives
/// (a missing entry reads as two missing fields).
pub open spec fn read_stats(store: Map<Seq<char>, (Option<i64>, Option<i32>)>, user_id: i64) -> Option<UserStats> {
    let k = user_key_text(user_id);
    if store.contains_key(k) {
        stats_spec(store[k].0, store[k].1)
    } else {
        stats_spec(None, None)
    }
}

/// What a cache warm-up writes is what the stats read gives back: after the
/// score and energy of a user are written under that user's key, reading
/// the user's stats gives exactly that score and energy, and the stats of
/// every other user are as they were.
pub proof fn lemma_warm_up_round_trip(
    store: Map<Seq<char>, (Option<i64>, Option<i32>)>,
    user_id: i64,
    score: i64,
    energy: i32,
    other: i64,
)
    ensures
        read_stats(warm_up_store(store, user_id, score, energy), user_id) == Some(UserStats { score, energy }),
        other != user_id ==> read_stats(warm_up_store(store, user_id, score, energy), other) == read_stats(store, other),
{
    if other != user_id {
        lemma_user_key_injective(user_id, other);
    }
}

/// The dead-letter scores after `move_to_dlq(updates)` on a store that held
/// `store`: under each update's member (its user id in decimal), its score;
/// a later update of the same user replaces an earlier one.
pub open spec fn dlq_store_after_move(store: Map<Seq<char>, i64>, updates: Seq<UserScoreUpdate>) -> Map<Seq<char>, i64>
    decreases updates.len(),
{
    if updates.len() == 0 {
        store
    } else {
        dlq_store_after_move(store, updates.drop_last()).insert(
            decimal_text(updates.last().user_id as int),
            updates.last().new_score,
        )
    }
}

/// What reading the dead-letter scores of the members `ids` from a store
/// gives: the stored score of each, or nothing.
pub open spec fn dlq_read(store: Map<Seq<char>, i64>, ids: Seq<Seq<char>>) -> Seq<Option<i64>> {
    ids.map_values(|id: Seq<char>| if store.contains_key(id) { Some(store[id]) } else { None::<i64> })
}

/// No two updates are for the same user.
pub open spec fn distinct_users(updates: Seq<UserScoreUpdate>) -> bool {
    forall|i: int, j: int| 0 <= i < j < updates.len() ==> (#[trigger] updates[i]).user_id != (#[trigger] updates[j]).user_id
}

proof fn lemma_dlq_store_holds(store: Map<Seq<char>, i64>, updates: Seq<UserScoreUpdate>)
    requires
        distinct_users(updates),
    ensures
        forall|i: int| 0 <= i < updates.len() ==> {
            let after = dlq_store_after_move(store, updates);
            let k = decimal_text((#[trigger] updates[i]).user_id as int);
            after.contains_key(k) && after[k] == updates[i].new_score
        },
    decreases updates.len(),
{
    if updates.len() > 0 {
        let init = updates.drop_last();
        assert forall|i: int, j: int| 0 <= i < j < init.len() implies (#[trigger] init[i]).user_id != (#[trigger] init[j]).user_id by {
            assert(init[i] == updates[i] && init[j] == updates[j]);
        }
        lemma_dlq_store_holds(store, init);
        let n = updates.len() - 1;
        assert(updates.last() == updates[n]);
        assert forall|i: int| 0 <= i < updates.len() implies {
            let after = dlq_store_after_move(store, updates);
            let k = decimal_text((#[trigger] updates[i]).user_id as int);
            after.contains_key(k) && after[k] == updates[i].new_score
        } by {
            if i < n {
                assert(init[i] == updates[i]);
                lemma_decimal_text_injective(updates[i].user_id, updates[n].user_id);
            }
        }
    }
}

/// What goes into the dead-letter queue comes back out of it, with the
/// store in between: when no two updates are for the same user, reading
/// the scores of the members that `move_to_dlq(updates)` filed, from the
/// store it left, gives back exactly `updates`, in order, whatever the store
/// held before.
pub proof fn lemma_dlq_store_round_trip(store: Map<Seq<char>, i64>, updates: Seq<UserScoreUpdate>)
    requires
        distinct_users(updates),
    ensures
        dlq_updates_spec(
            dlq_members_spec(updates),
            dlq_read(dlq_store_after_move(store, updates), dlq_members_spec(updates)),
        ) == updates,
{
    lemma_dlq_store_holds(store, updates);
    let after = dlq_store_after_move(store, updates);
    let read = dlq_read(after, dlq_members_spec(updates));
    let scores = updates.map_values(|u: UserScoreUpdate| Some(u.new_score));
    assert forall|i: int| 0 <= i < updates.len() implies read[i] == scores[i] by {
        assert(dlq_members_spec(updates)[i] == decimal_text(updates[i].user_id as int));
    }
    assert(read =~= scores);
    lemma_dlq_round_trip(updates);
}

} // verus!
