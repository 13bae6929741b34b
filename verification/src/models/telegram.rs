//! The login request of the Telegram mini app and its answer.

use vstd::prelude::*;

verus! {

/// A Telegram user as the client sends it at login.
#[derive(Debug, Clone)]
pub struct TelegramUser {
    pub id: i64,
    pub first_name: String,
    pub last_name: Option<String>,
    pub username: Option<String>,
    pub language_code: Option<String>,
}

/// A login request: the raw init data and the user it claims to be.
#[derive(Debug, Clone)]
pub struct AuthRequest {
    pub init_data: String,
    pub user: TelegramUser,
}

/// The answer to a successful login.
#[derive(Debug, Clone)]
pub struct AuthResponse {
    pub token: String,
    pub user: TelegramUser,
    pub expires_at: usize,
    pub user_id: i64,
}

} // verus!
