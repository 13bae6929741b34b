use tap_game::errors::AppError;
use tap_game::services::auth_service::{bearer_token, subject_for, token_expiry, user_id_from_subject, AuthService, TOKEN_LIFETIME_SECS};

#[test]
fn service_keeps_its_secret() {
    let a = AuthService::new("s3cret");
    assert_eq!(a.secret(), "s3cret");
}

#[test]
fn tokens_last_seven_days() {
    assert_eq!(token_expiry(1_700_000_000), 1_700_604_800);
    assert_eq!(TOKEN_LIFETIME_SECS, 7 * 24 * 3600);
}

#[test]
fn subject_round_trip() {
    assert_eq!(subject_for(12345), "12345");
    assert_eq!(user_id_from_subject(&subject_for(-9)), Ok(-9));
    assert_eq!(
        user_id_from_subject("abc"),
        Err(AppError::Internal("Failed to parse user_id from token claims".into()))
    );
}

#[test]
fn bearer_header() {
    assert_eq!(bearer_token("Bearer abc.def"), Some("abc.def".to_string()));
    assert_eq!(bearer_token("Bearer "), Some(String::new()));
    assert_eq!(bearer_token("bearer abc"), None);
    assert_eq!(bearer_token("Basic xyz"), None);
    assert_eq!(bearer_token("Bearer"), None);
}
