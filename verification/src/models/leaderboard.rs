//! Leaderboard rows and their ranked form.

use vstd::prelude::*;

verus! {

/// A user's place in a leaderboard shard.
#[derive(Debug, Clone)]
pub struct Leaderboard {
    pub shard_id: i32,
    pub user_id: i64,
    pub username: Option<String>,
}

/// One ranked leaderboard entry.
#[derive(Debug, Clone)]
pub struct LeaderboardResponse {
    pub rank: i32,
    pub user_id: i64,
    pub username: Option<String>,
    pub score: i64,
}

} // verus!
