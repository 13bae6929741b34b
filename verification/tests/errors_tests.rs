use tap_game::errors::AppError;

fn sm(e: AppError) -> (u16, String) {
    e.status_and_message()
}

#[test]
fn client_errors_keep_their_message() {
    assert_eq!(sm(AppError::Validation("bad".into())), (400, "Validation error: bad".into()));
    assert_eq!(sm(AppError::Auth("who?".into())), (401, "who?".into()));
    assert_eq!(sm(AppError::Authentication("no".into())), (403, "Authentication error: no".into()));
    assert_eq!(sm(AppError::AntiCheat("fast".into())), (429, "Anti-cheat violation: fast".into()));
    assert_eq!(sm(AppError::Jwt("ExpiredSignature".into())), (401, "Invalid token: ExpiredSignature".into()));
}

#[test]
fn special_messages() {
    assert_eq!(sm(AppError::Timeout("deadline has elapsed".into())), (408, "Request timed out".into()));
    assert_eq!(sm(AppError::Serialization("eof".into())), (400, "Invalid JSON format".into()));
}

#[test]
fn store_failures_hide_details() {
    for e in [
        AppError::Redis("x".into()),
        AppError::ScyllaExec("x".into()),
        AppError::ScyllaQuery("x".into()),
        AppError::ScyllaRows("x".into()),
        AppError::RedisPool("x".into()),
        AppError::RedisCreatePool("x".into()),
        AppError::Internal("x".into()),
    ] {
        assert_eq!(sm(e), (500, "Internal server error".into()));
    }
}

#[test]
fn display_forms() {
    assert_eq!(AppError::ScyllaExec("e".into()).message(), "Scylla query execution error: e");
    assert_eq!(AppError::Auth("e".into()).message(), "Authentication error: e");
    assert_eq!(AppError::Timeout("e".into()).message(), "Timeout error: e");
    assert_eq!(AppError::ScyllaQuery("e".into()).message(), "Scylla query execution error: e");
    assert_eq!(AppError::ScyllaRows("e".into()).message(), "Scylla result deserialization error: e");
    assert_eq!(AppError::Redis("e".into()).message(), "Redis error: e");
    assert_eq!(AppError::Serialization("e".into()).message(), "Serialization error: e");
    assert_eq!(AppError::Internal("e".into()).message(), "Internal error: e");
    assert_eq!(AppError::RedisPool("e".into()).message(), "Redis pool error: e");
    assert_eq!(AppError::RedisCreatePool("e".into()).message(), "Redis pool creation error: e");
    assert_eq!(AppError::Jwt("e".into()).message(), "JWT error: e");
}
