//! The data that flows between the handlers, the stores and the clients.

use vstd::prelude::*;

pub mod leaderboard;
pub mod player;
pub mod referral;
pub mod shop;
pub mod task;
pub mod telegram;

verus! {

/// One tap event of a client batch: when, and how many taps.
#[derive(Debug, Clone, Copy)]
pub struct TapEvent {
    pub t: i64,
    pub v: i32,
}

/// A batch of tap events.
#[derive(Debug, Clone)]
pub struct BatchPayload {
    pub taps: Vec<TapEvent>,
}

/// The user that a verified token names.
#[derive(Debug, Clone)]
pub struct ValidatedUser {
    pub id: i64,
    pub username: Option<String>,
    pub first_name: Option<String>,
    pub last_name: Option<String>,
}

/// A score change for one user.
#[derive(Debug, Clone, Copy)]
pub struct UserScoreUpdate {
    pub user_id: i64,
    pub score_increment: i64,
}

/// A logged tap event; the time is in milliseconds since the Unix epoch.
#[derive(Debug, Clone, Copy)]
pub struct TapEventLog {
    pub event_time_ms: i64,
    pub user_id: i64,
    pub tap_count: i32,
}

/// The init data that Telegram hands a mini app.
#[derive(Debug, Clone)]
pub struct TelegramInitData {
    pub user: Option<TelegramUser>,
    pub auth_date: i64,
    pub hash: String,
}

/// A Telegram user as the init data describes it.
#[derive(Debug, Clone)]
pub struct TelegramUser {
    pub id: i64,
    pub first_name: String,
    pub last_name: Option<String>,
    pub username: Option<String>,
    pub language_code: Option<String>,
    pub is_premium: Option<bool>,
}

} // verus!
