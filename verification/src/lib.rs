//! Verified core of the tap-game backend: the decisions and data shaping
//! that the HTTP server, the background workers and the Telegram login
//! rely on. I/O lives in the companion application crate.

pub mod decimal;
pub mod text;
pub mod state;
pub mod circuit_breaker;
pub mod config;
pub mod errors;
pub mod models;
pub mod services;
pub mod workers;
pub mod repositories;
pub mod routes;
