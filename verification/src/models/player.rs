//! Players as stored, and the requests and answers about them. Times are
//! milliseconds since the Unix epoch.

use vstd::prelude::*;

verus! {

/// A player row.
#[derive(Debug, Clone)]
pub struct Player {
    pub user_id: i64,
    pub username: Option<String>,
    pub first_name: Option<String>,
    pub auth_date: i64,
    pub level: Option<i32>,
    pub score: Option<i64>,
    pub energy: Option<i32>,
    pub max_energy: Option<i32>,
    pub energy_last_recharged: Option<i64>,
    pub tap_value: Option<i32>,
    pub energy_recharge_rate: Option<i32>,
    pub referral_code: Option<String>,
    pub referred_by_id: Option<i64>,
    pub last_seen: Option<i64>,
}

/// A new player.
#[derive(Debug, Clone)]
pub struct CreatePlayerRequest {
    pub user_id: i64,
    pub username: Option<String>,
    pub first_name: Option<String>,
    pub referral_code: Option<String>,
    pub referred_by_id: Option<i64>,
}

/// New values for a player's profile.
#[derive(Debug, Clone)]
pub struct UpdatePlayerRequest {
    pub user_id: i64,
    pub username: Option<String>,
    pub first_name: Option<String>,
    pub level: Option<i32>,
    pub energy: Option<i32>,
    pub max_energy: Option<i32>,
    pub tap_value: Option<i32>,
    pub energy_recharge_rate: Option<i32>,
}

/// A player as the API shows it.
#[derive(Debug, Clone)]
pub struct PlayerResponse {
    pub user_id: i64,
    pub username: Option<String>,
    pub first_name: Option<String>,
    pub score: i64,
    pub level: i32,
    pub energy: i32,
    pub max_energy: i32,
    pub tap_value: i32,
    pub energy_recharge_rate: i32,
    pub referral_code: Option<String>,
    pub last_seen: Option<i64>,
}

/// The user that a verified token names.
#[derive(Debug, Clone)]
pub struct ValidatedUser {
    pub id: i64,
    pub username: Option<String>,
    pub first_name: Option<String>,
    pub last_name: Option<String>,
}

/// The score that a user has reached, to be written to the database.
#[derive(Debug, Clone, Copy)]
pub struct UserScoreUpdate {
    pub user_id: i64,
    pub new_score: i64,
}

} // verus!
