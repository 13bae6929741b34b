//! The server's error type and how each error is answered over HTTP.
//! Errors that come from an outside library carry that error's message.

use vstd::prelude::*;
use vstd::string::StringExecFns;

verus! {

/// What can go wrong while serving a request or running a worker.
#[derive(Debug, Clone, PartialEq, Eq)]
pub enum AppError {
    ScyllaExec(String),
    Auth(String),
    Timeout(String),
    ScyllaQuery(String),
    ScyllaRows(String),
    Redis(String),
    Validation(String),
    Authentication(String),
    Serialization(String),
    AntiCheat(String),
    Internal(String),
    RedisPool(String),
    RedisCreatePool(String),
    Jwt(String),
}

/// The text in front of each error's own message in its display form.
pub open spec fn message_prefix(e: AppError) -> Seq<char> {
    match e {
        AppError::ScyllaExec(_) => "Scylla query execution error: "@,
        AppError::Auth(_) => "Authentication error: "@,
        AppError::Timeout(_) => "Timeout error: "@,
        AppError::ScyllaQuery(_) => "Scylla query execution error: "@,
        AppError::ScyllaRows(_) => "Scylla result deserialization error: "@,
        AppError::Redis(_) => "Redis error: "@,
        AppError::Validation(_) => "Validation error: "@,
        AppError::Authentication(_) => "Authentication error: "@,
        AppError::Serialization(_) => "Serialization error: "@,
        AppError::AntiCheat(_) => "Anti-cheat violation: "@,
        AppError::Internal(_) => "Internal error: "@,
        AppError::RedisPool(_) => "Redis pool error: "@,
        AppError::RedisCreatePool(_) => "Redis pool creation error: "@,
        AppError::Jwt(_) => "JWT error: "@,
    }
}

/// The message that the error carries.
pub open spec fn detail(e: AppError) -> Seq<char> {
    match e {
        AppError::ScyllaExec(m) => m@,
        AppError::Auth(m) => m@,
        AppError::Timeout(m) => m@,
        AppError::ScyllaQuery(m) => m@,
        AppError::ScyllaRows(m) => m@,
        AppError::Redis(m) => m@,
        AppError::Validation(m) => m@,
        AppError::Authentication(m) => m@,
        AppError::Serialization(m) => m@,
        AppError::AntiCheat(m) => m@,
        AppError::Internal(m) => m@,
        AppError::RedisPool(m) => m@,
        AppError::RedisCreatePool(m) => m@,
        AppError::Jwt(m) => m@,
    }
}

/// The display form of an error: its prefix, then its own message.
pub open spec fn display_spec(e: AppError) -> Seq<char> {
    message_prefix(e) + detail(e)
}

/// The HTTP status and the `error` text with which an error is answered.
pub open spec fn response_spec(e: AppError) -> (u16, Seq<char>) {
    match e {
        AppError::Validation(_) => (400, display_spec(e)),
        AppError::Auth(m) => (401, m@),
        AppError::Authentication(_) => (403, display_spec(e)),
        AppError::AntiCheat(_) => (429, display_spec(e)),
        AppError::Timeout(_) => (408, "Request timed out"@),
        AppError::Jwt(m) => (401, "Invalid token: "@ + m@),
        AppError::Serialization(_) => (400, "Invalid JSON format"@),
        _ => (500, "Internal server error"@),
    }
}

fn prefixed(prefix: &str, m: &String) -> (r: String)
    ensures
        r@ == prefix@ + m@,
{
    let mut r = prefix.to_owned();
    r.append(m.as_str());
    r
}

impl AppError {
    /// The error's display form (what `to_string` gives in the server).
    pub fn message(&self) -> (r: String)
        ensures
            r@ == display_spec(*self),
    {
        match self {
            AppError::ScyllaExec(m) => prefixed("Scylla query execution error: ", m),
            AppError::Auth(m) => prefixed("Authentication error: ", m),
            AppError::Timeout(m) => prefixed("Timeout error: ", m),
            AppError::ScyllaQuery(m) => prefixed("Scylla query execution error: ", m),
            AppError::ScyllaRows(m) => prefixed("Scylla result deserialization error: ", m),
            AppError::Redis(m) => prefixed("Redis error: ", m),
            AppError::Validation(m) => prefixed("Validation error: ", m),
            AppError::Authentication(m) => prefixed("Authentication error: ", m),
            AppError::Serialization(m) => prefixed("Serialization error: ", m),
            AppError::AntiCheat(m) => prefixed("Anti-cheat violation: ", m),
            AppError::Internal(m) => prefixed("Internal error: ", m),
            AppError::RedisPool(m) => prefixed("Redis pool error: ", m),
            AppError::RedisCreatePool(m) => prefixed("Redis pool creation error: ", m),
            AppError::Jwt(m) => prefixed("JWT error: ", m),
        }
    }

    /// The HTTP status code and the `error` text of the JSON body with which
    /// the server answers this error. Failures of the stores and internal
    /// errors are answered without their details.
    pub fn status_and_message(&self) -> (r: (u16, String))
        ensures
            (r.0, r.1@) == response_spec(*self),
    {
        match self {
            AppError::Validation(_) => (400, self.message()),
            AppError::Auth(m) => (401, m.clone()),
            AppError::Authentication(_) => (403, self.message()),
            AppError::AntiCheat(_) => (429, self.message()),
            AppError::Timeout(_) => (408, "Request timed out".to_owned()),
            AppError::Jwt(m) => (401, prefixed("Invalid token: ", m)),
            AppError::Serialization(_) => (400, "Invalid JSON format".to_owned()),
            _ => (500, "Internal server error".to_owned()),
        }
    }
}

} // verus!
