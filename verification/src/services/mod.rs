//! The logic of the services: Redis keys and replies, Telegram login
//! checks, and token claims.

pub mod auth_service;
pub mod redis_service;
pub mod telegram;
