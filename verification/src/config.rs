//! Server settings and the defaults for those the environment leaves out.

use vstd::prelude::*;
use crate::decimal::{parse_i32, parse_i32_spec, parse_i64, parse_i64_spec, parse_u16, parse_u16_spec, parse_u64, parse_u64_spec, parse_usize, parse_usize_spec};

verus! {

/// The settings of the server.
#[derive(Debug, Clone)]
pub struct Config {
    pub database_url: String,
    pub telegram_bot_token: String,
    pub jwt_secret: String,
    pub port: u16,
    pub cors_origin: String,
    pub jwt_expiry_hours: i64,
    pub redis_url: String,
}

/// The port when `PORT` is not set.
pub const DEFAULT_PORT: u16 = 3000;

/// The token lifetime in hours when `JWT_EXPIRY_HOURS` is not set or not a
/// number.
pub const DEFAULT_JWT_EXPIRY_HOURS: i64 = 24;

pub open spec fn or_default(v: Option<String>, d: Seq<char>) -> Seq<char> {
    match v {
        Some(s) => s@,
        None => d,
    }
}

/// The port of the `PORT` setting: 3000 when it is not set, `None` when it
/// is set to something that is not a `u16` (the server refuses to start).
pub fn port_from(value: Option<&str>) -> (r: Option<u16>)
    ensures
        match value {
            None => r == Some(DEFAULT_PORT),
            Some(s) => match parse_u16_spec(s@) {
                Some(p) => r == Some(p as u16),
                None => r is None,
            },
        },
{
    match value {
        None => Some(DEFAULT_PORT),
        Some(s) => parse_u16(s),
    }
}

/// The token lifetime of the `JWT_EXPIRY_HOURS` setting: 24 unless it is
/// an `i64`.
pub fn expiry_hours_from(value: Option<&str>) -> (r: i64)
    ensures
        r == (match value {
            Some(s) => match parse_i64_spec(s@) {
                Some(h) => h as i64,
                None => DEFAULT_JWT_EXPIRY_HOURS,
            },
            None => DEFAULT_JWT_EXPIRY_HOURS,
        }),
{
    match value {
        Some(s) => match parse_i64(s) {
            Some(h) => h,
            None => DEFAULT_JWT_EXPIRY_HOURS,
        },
        None => DEFAULT_JWT_EXPIRY_HOURS,
    }
}

/// A numeric setting read as a `usize`, or `default` when it is not set or
/// not a `usize`.
pub fn usize_setting(value: Option<&str>, default: usize) -> (r: usize)
    ensures
        r == (match value {
            Some(s) => match parse_usize_spec(s@) {
                Some(v) => v as usize,
                None => default,
            },
            None => default,
        }),
{
    match value {
        Some(s) => match parse_usize(s) {
            Some(v) => v,
            None => default,
        },
        None => default,
    }
}

/// `num_cpus::get()`: the number of CPUs that the process may run on,
/// which the crate documents to be at least 1. Nothing else is claimed: it
/// depends on the machine.
#[verifier::external_body]
fn cpu_count() -> (r: usize)
    ensures
        r >= 1,
{
    num_cpus::get()
}

/// A parallelism setting (workers, flushes in flight) for a machine with
/// `cpus` CPUs: the setting read as a `usize`, else twice `cpus`. `None`
/// when twice `cpus` does not fit in a `usize` (the server does not start).
pub fn parallelism_setting(value: Option<&str>, cpus: usize) -> (r: Option<usize>)
    ensures
        cpus * 2 > usize::MAX ==> r is None,
        cpus * 2 <= usize::MAX ==> r == Some(match value {
            Some(s) => match parse_usize_spec(s@) {
                Some(v) => v as usize,
                None => (cpus * 2) as usize,
            },
            None => (cpus * 2) as usize,
        }),
{
    if cpus > usize::MAX / 2 {
        return None;
    }
    Some(usize_setting(value, cpus * 2))
}

/// A parallelism setting on this machine: the setting when it is a
/// `usize`, else twice the number of CPUs (so at least 2, and even).
pub fn parallelism_from(value: Option<&str>) -> (r: Option<usize>)
    ensures
        r matches Some(n) ==> match value {
            Some(s) => match parse_usize_spec(s@) {
                Some(v) => n == v,
                None => n >= 2 && n % 2 == 0,
            },
            None => n >= 2 && n % 2 == 0,
        },
{
    parallelism_setting(value, cpu_count())
}

/// A numeric setting read as a `u64`, or `default`.
pub fn u64_setting(value: Option<&str>, default: u64) -> (r: u64)
    ensures
        r == (match value {
            Some(s) => match parse_u64_spec(s@) {
                Some(v) => v as u64,
                None => default,
            },
            None => default,
        }),
{
    match value {
        Some(s) => match parse_u64(s) {
            Some(v) => v,
            None => default,
        },
        None => default,
    }
}

/// A numeric setting read as an `i32`, or `default`.
pub fn i32_setting(value: Option<&str>, default: i32) -> (r: i32)
    ensures
        r == (match value {
            Some(s) => match parse_i32_spec(s@) {
                Some(v) => v as i32,
                None => default,
            },
            None => default,
        }),
{
    match value {
        Some(s) => match parse_i32(s) {
            Some(v) => v,
            None => default,
        },
        None => default,
    }
}

impl Config {
    /// The settings from the values of the environment: a missing JWT
    /// secret or CORS origin takes its default.
    pub fn from_parts(
        database_url: String,
        telegram_bot_token: String,
        jwt_secret: Option<String>,
        port: u16,
        cors_origin: Option<String>,
        jwt_expiry_hours: i64,
        redis_url: String,
    ) -> (r: Config)
        ensures
            r.database_url == database_url,
            r.telegram_bot_token == telegram_bot_token,
            r.jwt_secret@ == or_default(jwt_secret, "your-secret-key-change-this"@),
            r.port == port,
            r.cors_origin@ == or_default(cors_origin, "https://sdsd-ashy.vercel.app"@),
            r.jwt_expiry_hours == jwt_expiry_hours,
            r.redis_url == redis_url,
    {
        let jwt_secret = match jwt_secret {
            Some(s) => s,
            None => "your-secret-key-change-this".to_owned(),
        };
        let cors_origin = match cors_origin {
            Some(s) => s,
            None => "https://sdsd-ashy.vercel.app".to_owned(),
        };
        Config { database_url, telegram_bot_token, jwt_secret, port, cors_origin, jwt_expiry_hours, redis_url }
    }
}

} // verus!
