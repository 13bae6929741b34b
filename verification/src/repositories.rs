//! The rows that the repositories write, and how they read what the
//! database answers.

use vstd::prelude::*;
use crate::errors::AppError;
use vstd::string::StringExecFns;
use crate::models::leaderboard::LeaderboardResponse;
use crate::models::player::{CreatePlayerRequest, Player, UserScoreUpdate};
use crate::models::shop::{PlayerItem, PurchaseItemRequest};

verus! {

/// The answer of a database health check.
#[derive(Debug, Clone, Copy)]
pub struct DatabaseHealth {
    pub is_healthy: bool,
    pub response_time_ms: u64,
    pub active_connections: u32,
    pub idle_connections: u32,
}

/// The leaderboard shard that the server reads and writes.
pub const LEADERBOARD_SHARD: i32 = 0;

/// How many score upserts go into one database batch.
pub const UPSERT_BATCH_SIZE: usize = 100;

/// The row of a new player created at `now_ms`: level 1, energy and maximum
/// energy 1000, tap value and recharge rate 1, score 0, seen now.
pub fn new_player_row(request: CreatePlayerRequest, now_ms: i64) -> (r: Player)
    ensures
        r.user_id == request.user_id,
        r.username == request.username,
        r.first_name == request.first_name,
        r.auth_date == now_ms,
        r.level == Some(1i32),
        r.score == Some(0i64),
        r.energy == Some(1000i32),
        r.max_energy == Some(1000i32),
        r.energy_last_recharged is None,
        r.tap_value == Some(1i32),
        r.energy_recharge_rate == Some(1i32),
        r.referral_code == request.referral_code,
        r.referred_by_id == request.referred_by_id,
        r.last_seen == Some(now_ms),
{
    Player {
        user_id: request.user_id,
        username: request.username,
        first_name: request.first_name,
        auth_date: now_ms,
        level: Some(1),
        score: Some(0),
        energy: Some(1000),
        max_energy: Some(1000),
        energy_last_recharged: None,
        tap_value: Some(1),
        energy_recharge_rate: Some(1),
        referral_code: request.referral_code,
        referred_by_id: request.referred_by_id,
        last_seen: Some(now_ms),
    }
}

pub open spec fn score_or_zero(s: Option<i64>) -> int {
    match s {
        Some(v) => v as int,
        None => 0,
    }
}

/// The new score of a player whose score row reads `row` (no row at all,
/// or a score that may be null), after adding `increment`: no row is the
/// internal error "No score row found"; a null score counts as 0.
pub fn score_after_increment(row: Option<Option<i64>>, increment: i64) -> (r: Result<i64, AppError>)
    requires
        row matches Some(s) ==> i64::MIN <= score_or_zero(s) + increment <= i64::MAX,
    ensures
        match row {
            None => r matches Err(AppError::Internal(m)) && m@ == "No score row found"@,
            Some(s) => r == Ok::<i64, AppError>((score_or_zero(s) + increment) as i64),
        },
{
    match row {
        None => Err(AppError::Internal("No score row found".to_owned())),
        Some(s) => {
            let current = match s {
                Some(v) => v,
                None => 0,
            };
            Ok(current + increment)
        },
    }
}

pub open spec fn flatten(chunks: Seq<Vec<UserScoreUpdate>>) -> Seq<UserScoreUpdate>
    decreases chunks.len(),
{
    if chunks.len() == 0 {
        Seq::empty()
    } else {
        flatten(chunks.drop_last()) + chunks.last()@
    }
}

/// Cuts the updates into database batches of 100, in order; only the last
/// batch may be shorter, and no batch is empty.
pub fn upsert_batches(updates: &Vec<UserScoreUpdate>) -> (r: Vec<Vec<UserScoreUpdate>>)
    ensures
        flatten(r@) == updates@,
        forall|i: int| 0 <= i < r@.len() ==> 1 <= (#[trigger] r@[i])@.len() <= UPSERT_BATCH_SIZE,
        forall|i: int| 0 <= i < r@.len() - 1 ==> (#[trigger] r@[i])@.len() == UPSERT_BATCH_SIZE,
{
    let n = updates.len();
    let mut out: Vec<Vec<UserScoreUpdate>> = Vec::new();
    let mut i: usize = 0;
    assert(updates@.take(0) =~= Seq::<UserScoreUpdate>::empty());
    while i < n
        invariant
            i <= n,
            n == updates@.len(),
            flatten(out@) == updates@.take(i as int),
            forall|j: int| 0 <= j < out@.len() ==> 1 <= (#[trigger] out@[j])@.len() <= UPSERT_BATCH_SIZE,
            i < n ==> forall|j: int| 0 <= j < out@.len() ==> (#[trigger] out@[j])@.len() == UPSERT_BATCH_SIZE,
            forall|j: int| 0 <= j < out@.len() - 1 ==> (#[trigger] out@[j])@.len() == UPSERT_BATCH_SIZE,
        decreases n - i,
    {
        let end = if n - i < UPSERT_BATCH_SIZE { n } else { i + UPSERT_BATCH_SIZE };
        let mut chunk: Vec<UserScoreUpdate> = Vec::new();
        let mut j = i;
        while j < end
            invariant
                i <= j <= end <= n,
                n == updates@.len(),
                chunk@ == updates@.subrange(i as int, j as int),
            decreases end - j,
        {
            chunk.push(updates[j]);
            assert(updates@.subrange(i as int, j + 1) =~= updates@.subrange(i as int, j as int).push(updates@[j as int]));
            j = j + 1;
        }
        let ghost before = out@;
        out.push(chunk);
        assert(out@.drop_last() =~= before);
        assert(updates@.take(end as int) =~= updates@.take(i as int) + updates@.subrange(i as int, end as int));
        assert forall|k: int| 0 <= k < out@.len() implies 1 <= (#[trigger] out@[k])@.len() <= UPSERT_BATCH_SIZE by {
            if k < before.len() {
                assert(out@[k] == before[k]);
            }
        }
        assert forall|k: int| 0 <= k < out@.len() - 1 implies (#[trigger] out@[k])@.len() == UPSERT_BATCH_SIZE by {
            assert(out@[k] == before[k]);
        }
        if end < n {
            assert forall|k: int| 0 <= k < out@.len() implies (#[trigger] out@[k])@.len() == UPSERT_BATCH_SIZE by {
                if k < before.len() {
                    assert(out@[k] == before[k]);
                }
            }
        }
        i = end;
    }
    assert(updates@.take(n as int) =~= updates@);
    out
}

/// The message of the first failed batch, if any, in batch order.
pub open spec fn first_failure(results: Seq<Result<(), String>>) -> Option<Seq<char>>
    decreases results.len(),
{
    if results.len() == 0 {
        None
    } else {
        match results[0] {
            Err(e) => Some(e@),
            Ok(_) => first_failure(results.drop_first()),
        }
    }
}

/// `first_failure` picks the first failed batch: there is none exactly when
/// every batch succeeded, and otherwise it is the message of a failed batch
/// before which every batch succeeded.
pub proof fn lemma_first_failure_is_first_err(results: Seq<Result<(), String>>)
    ensures
        (first_failure(results) is None) <==> (forall|i: int| 0 <= i < results.len() ==> (#[trigger] results[i]) is Ok),
        first_failure(results) matches Some(e) ==> exists|i: int| {
            &&& 0 <= i < results.len()
            &&& #[trigger] results[i] matches Err(x) && x@ == e
            &&& forall|j: int| 0 <= j < i ==> (#[trigger] results[j]) is Ok
        },
    decreases results.len(),
{
    if results.len() > 0 {
        let rest = results.drop_first();
        lemma_first_failure_is_first_err(rest);
        match results[0] {
            Err(x) => {
                assert(results[0] matches Err(y) && y@ == x@);
            },
            Ok(_) => {
                assert forall|i: int| 0 < i < results.len() implies results[i] == #[trigger] rest[i - 1] by {}
                if forall|i: int| 0 <= i < rest.len() ==> (#[trigger] rest[i]) is Ok {
                    assert forall|i: int| 0 <= i < results.len() implies (#[trigger] results[i]) is Ok by {
                        if i > 0 {
                            assert(results[i] == rest[i - 1]);
                        }
                    }
                } else {
                    let k = choose|k: int| 0 <= k < rest.len() && !((#[trigger] rest[k]) is Ok);
                    assert(rest[k] == results[k + 1]);
                }
                match first_failure(rest) {
                    Some(e) => {
                        let i = choose|i: int| {
                            &&& 0 <= i < rest.len()
                            &&& #[trigger] rest[i] matches Err(x) && x@ == e
                            &&& forall|j: int| 0 <= j < i ==> (#[trigger] rest[j]) is Ok
                        };
                        assert(results[i + 1] == rest[i]);
                        assert forall|j: int| 0 <= j < i + 1 implies (#[trigger] results[j]) is Ok by {
                            if j > 0 {
                                assert(results[j] == rest[j - 1]);
                            }
                        }
                    },
                    None => {},
                }
            },
        }
    }
}

/// The outcome of a bulk upsert from the outcomes of its batches: success
/// when every batch succeeded, else "Batch upsert failed: " and the message
/// of the first batch (in batch order) that failed.
pub fn combine_batch_results(results: &Vec<Result<(), String>>) -> (r: Result<(), String>)
    ensures
        match first_failure(results@) {
            None => r is Ok,
            Some(e) => r matches Err(m) && m@ == "Batch upsert failed: "@ + e,
        },
        (r is Ok) <==> (forall|i: int| 0 <= i < results@.len() ==> (#[trigger] results@[i]) is Ok),
{
    proof {
        lemma_first_failure_is_first_err(results@);
    }
    let mut i: usize = 0;
    assert(results@.skip(0) =~= results@);
    while i < results.len()
        invariant
            i <= results@.len(),
            first_failure(results@) == first_failure(results@.skip(i as int)),
        decreases results@.len() - i,
    {
        assert(results@.skip(i as int)[0] == results@[i as int]);
        assert(results@.skip(i as int).drop_first() =~= results@.skip(i + 1));
        match &results[i] {
            Err(e) => {
                let mut m = "Batch upsert failed: ".to_owned();
                m.append(e.as_str());
                return Err(m);
            },
            Ok(()) => {},
        }
        i = i + 1;
    }
    assert(results@.skip(i as int).len() == 0);
    Ok(())
}

/// Ranks leaderboard rows (shard, user, name, score) in the order the
/// database returned them: the first row is rank 1.
pub fn rank_entries(rows: &Vec<(i32, i64, Option<String>, i64)>) -> (r: Vec<LeaderboardResponse>)
    requires
        rows@.len() < i32::MAX,
    ensures
        r@.len() == rows@.len(),
        forall|i: int| 0 <= i < r@.len() ==> {
            &&& (#[trigger] r@[i]).rank == i + 1
            &&& r@[i].user_id == rows@[i].1
            &&& r@[i].username == rows@[i].2
            &&& r@[i].score == rows@[i].3
        },
{
    let mut out: Vec<LeaderboardResponse> = Vec::new();
    let mut rank: i32 = 1;
    let mut i: usize = 0;
    while i < rows.len()
        invariant
            i <= rows@.len() < i32::MAX,
            rank == i + 1,
            out@.len() == i,
            forall|k: int| 0 <= k < i ==> {
                &&& (#[trigger] out@[k]).rank == k + 1
                &&& out@[k].user_id == rows@[k].1
                &&& out@[k].username == rows@[k].2
                &&& out@[k].score == rows@[k].3
            },
        decreases rows@.len() - i,
    {
        let username = match &rows[i].2 {
            Some(s) => Some(s.clone()),
            None => None,
        };
        out.push(LeaderboardResponse { rank, user_id: rows[i].1, username, score: rows[i].3 });
        rank = rank + 1;
        i = i + 1;
    }
    out
}

/// A player's rank from the number of players with a higher score: one
/// more than that number, as an `i32` (truncated like `as i32`).
pub fn rank_from_count(count: Option<i64>) -> (r: Option<i32>)
    requires
        count != Some(i64::MAX),
    ensures
        match count {
            Some(c) => r == Some(((c + 1) as i64) as i32),
            None => r is None,
        },
{
    match count {
        Some(c) => Some((c + 1) as i32),
        None => None,
    }
}

/// What a purchase writes to the player's items.
#[derive(Debug, Clone, Copy, PartialEq, Eq)]
pub enum PurchaseWrite {
    /// The player already owns the item: set its quantity.
    SetQuantity { user_id: i64, item_id: i32, quantity: i32 },
    /// A newly owned item, bought at `purchase_date_ms`.
    Insert { user_id: i64, item_id: i32, quantity: i32, purchase_date_ms: i64, is_active: bool },
}

/// The write of a purchase, given the item the player already owns, if
/// any: an owned item gets the requested quantity (it is set, not added
/// to); otherwise a new, inactive item is inserted, bought at `now_ms`.
pub fn purchase_write(request: &PurchaseItemRequest, owned: &Option<PlayerItem>, now_ms: i64) -> (r: PurchaseWrite)
    ensures
        owned is Some ==> r == (PurchaseWrite::SetQuantity {
            user_id: request.user_id,
            item_id: request.item_id,
            quantity: request.quantity,
        }),
        owned is None ==> r == (PurchaseWrite::Insert {
            user_id: request.user_id,
            item_id: request.item_id,
            quantity: request.quantity,
            purchase_date_ms: now_ms,
            is_active: false,
        }),
{
    match owned {
        Some(_) => PurchaseWrite::SetQuantity {
            user_id: request.user_id,
            item_id: request.item_id,
            quantity: request.quantity,
        },
        None => PurchaseWrite::Insert {
            user_id: request.user_id,
            item_id: request.item_id,
            quantity: request.quantity,
            purchase_date_ms: now_ms,
            is_active: false,
        },
    }
}

/// `rand::random::<i32>()`: a random `i32`. Nothing is claimed of it.
#[verifier::external_body]
fn random_i32() -> (r: i32) {
    rand::random::<i32>()
}

pub open spec fn item_id_from(x: i32) -> i32 {
    if x == i32::MIN { i32::MIN } else if x < 0 { (-x) as i32 } else { x }
}

/// The id of a new shop item from a random `i32`: its absolute value
/// (`i32::MIN` stays as it is, as `abs` wraps in release builds).
pub fn item_id_from_random(x: i32) -> (r: i32)
    ensures
        r == item_id_from(x),
{
    if x == i32::MIN {
        x
    } else if x < 0 {
        -x
    } else {
        x
    }
}

/// A new random shop item id: not negative, except for the one value
/// `i32::MIN`.
pub fn new_shop_item_id() -> (r: i32)
    ensures
        r >= 0 || r == i32::MIN,
{
    item_id_from_random(random_i32())
}

/// A version-4 (random) UUID: version nibble 4, RFC 4122 variant.
pub open spec fn is_v4_uuid(u: u128) -> bool {
    &&& u & 0xF000_0000_0000_0000_0000u128 == 0x4000_0000_0000_0000_0000u128
    &&& u & 0xC000_0000_0000_0000u128 == 0x8000_0000_0000_0000u128
}

/// `uuid::Uuid::new_v4()`, as its 128-bit value: random bits with the
/// version nibble set to 4 and the variant bits to `10`.
#[verifier::external_body]
fn random_uuid_v4() -> (r: u128)
    ensures
        is_v4_uuid(r),
{
    uuid::Uuid::new_v4().as_u128()
}

/// The id of a new task: a random version-4 UUID.
pub fn new_task_id() -> (r: u128)
    ensures
        is_v4_uuid(r),
{
    random_uuid_v4()
}

} // verus!
