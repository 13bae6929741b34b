//! Token claims: who a token names and until when it is valid.

use vstd::prelude::*;
use crate::decimal::{chars_of, decimal_text, format_i64, parse_i64, parse_i64_spec};
use vstd::string::StrSliceExecFns;
use crate::errors::AppError;

verus! {

/// How long a token is valid: 7 days, in seconds.
pub const TOKEN_LIFETIME_SECS: i64 = 604800;

/// The last second that a UTC date-time can hold (the end of the year
/// 262143).
pub const MAX_TIMESTAMP_SECS: i64 = 8210298412799;

/// Issues and checks tokens with a shared secret.
pub struct AuthService {
    secret: String,
}

impl AuthService {
    pub closed spec fn secret_spec(&self) -> Seq<char> {
        self.secret@
    }

    /// A service that signs with `secret`.
    pub fn new(secret: &str) -> (r: Self)
        ensures
            r.secret_spec() == secret@,
    {
        AuthService { secret: secret.to_owned() }
    }

    /// The signing secret.
    pub fn secret(&self) -> (r: &str)
        ensures
            r@ == self.secret_spec(),
    {
        self.secret.as_str()
    }
}

/// The expiry of a token issued at `now_secs` (Unix seconds), as the
/// claims hold it.
pub fn token_expiry(now_secs: i64) -> (r: usize)
    requires
        now_secs + TOKEN_LIFETIME_SECS <= MAX_TIMESTAMP_SECS,
    ensures
        r == (now_secs + TOKEN_LIFETIME_SECS) as usize,
{
    (now_secs + TOKEN_LIFETIME_SECS) as usize
}

/// The subject claim of a token for `user_id`: the id in decimal.
pub fn subject_for(user_id: i64) -> (r: String)
    ensures
        r@ == decimal_text(user_id as int),
{
    format_i64(user_id)
}

/// The user id that a subject claim names; a subject that is not an `i64`
/// is the internal error "Failed to parse user_id from token claims".
pub fn user_id_from_subject(sub: &str) -> (r: Result<i64, AppError>)
    ensures
        match parse_i64_spec(sub@) {
            Some(v) => r == Ok::<i64, AppError>(v as i64),
            None => r matches Err(AppError::Internal(m)) && m@ == "Failed to parse user_id from token claims"@,
        },
{
    match parse_i64(sub) {
        Some(v) => Ok(v),
        None => Err(AppError::Internal("Failed to parse user_id from token claims".to_owned())),
    }
}

pub open spec fn bearer_prefix() -> Seq<char> {
    seq!['B', 'e', 'a', 'r', 'e', 'r', ' ']
}

/// The token of an `Authorization` header value: what follows the prefix
/// "Bearer ", if the value starts with it.
pub fn bearer_token(value: &str) -> (r: Option<String>)
    ensures
        match r {
            Some(t) => value@.len() >= 7 && value@.take(7) == bearer_prefix() && t@ == value@.skip(7),
            None => !(value@.len() >= 7 && value@.take(7) == bearer_prefix()),
        },
{
    let cs = chars_of(value);
    let prefix: Vec<char> = vec!['B', 'e', 'a', 'r', 'e', 'r', ' '];
    assert(prefix@ =~= bearer_prefix());
    if cs.len() < 7 {
        return None;
    }
    let mut i: usize = 0;
    while i < 7
        invariant
            i <= 7 <= cs@.len(),
            cs@ == value@,
            prefix@ == bearer_prefix(),
            forall|j: int| 0 <= j < i ==> cs@[j] == prefix@[j],
        decreases 7 - i,
    {
        if cs[i] != prefix[i] {
            assert(value@.take(7)[i as int] != bearer_prefix()[i as int]);
            return None;
        }
        i = i + 1;
    }
    assert(value@.take(7) =~= bearer_prefix());
    let rest = value.substring_char(7, cs.len());
    Some(rest.to_owned())
}

} // verus!
