use hmac::{Hmac, Mac};
use sha2::Sha256;
use tap_game::errors::AppError;
use tap_game::services::telegram::TelegramService;

fn hmac(key: &[u8], msg: &[u8]) -> Vec<u8> {
    let mut m = <Hmac<Sha256> as Mac>::new_from_slice(key).unwrap();
    m.update(msg);
    m.finalize().into_bytes().to_vec()
}

fn sign(token: &str, check_string: &str) -> String {
    let secret = hmac(b"WebAppData", token.as_bytes());
    hex::encode(hmac(&secret, check_string.as_bytes()))
}

const TOKEN: &str = "123456:ABCDEF";

#[test]
fn accepts_correctly_signed_init_data() {
    let h = sign(TOKEN, "auth_date=1700000000\nquery_id=AAH\nuser={\"id\":1}");
    let init = format!("query_id=AAH&user=%7B%22id%22%3A1%7D&auth_date=1700000000&hash={h}");
    let svc = TelegramService::new(TOKEN.to_string());
    assert_eq!(svc.verify_init_data(&init), Ok(true));
}

#[test]
fn field_order_does_not_matter() {
    let h = sign(TOKEN, "a=1\nb=2\nc=3");
    let svc = TelegramService::new(TOKEN.to_string());
    for init in [
        format!("a=1&b=2&c=3&hash={h}"),
        format!("hash={h}&c=3&a=1&b=2"),
        format!("b=2&hash={h}&c=3&a=1"),
    ] {
        assert_eq!(svc.verify_init_data(&init), Ok(true), "{init}");
    }
}

#[test]
fn tampered_or_foreign_data_fails() {
    let h = sign(TOKEN, "a=1\nb=2");
    let svc = TelegramService::new(TOKEN.to_string());
    assert_eq!(svc.verify_init_data(&format!("a=1&b=3&hash={h}")), Ok(false));
    let other = TelegramService::new("999:OTHER".to_string());
    assert_eq!(other.verify_init_data(&format!("a=1&b=2&hash={h}")), Ok(false));
}

#[test]
fn later_field_replaces_earlier_and_pieces_without_equals_are_skipped() {
    let h = sign(TOKEN, "a=2");
    let svc = TelegramService::new(TOKEN.to_string());
    assert_eq!(svc.verify_init_data(&format!("a=1&junk&&a=2&hash={h}")), Ok(true));
}

#[test]
fn values_keep_later_equals_signs_and_plus() {
    let h = sign(TOKEN, "k=v=w+x");
    let svc = TelegramService::new(TOKEN.to_string());
    assert_eq!(svc.verify_init_data(&format!("k=v=w+x&hash={h}")), Ok(true));
}

#[test]
fn missing_hash_is_an_auth_error() {
    let svc = TelegramService::new(TOKEN.to_string());
    assert_eq!(
        svc.verify_init_data("a=1&b=2"),
        Err(AppError::Auth("Hash not found in init data".to_string()))
    );
    assert_eq!(svc.verify_init_data(""), Err(AppError::Auth("Hash not found in init data".to_string())));
}

#[test]
fn undecodable_value_is_an_internal_error() {
    let svc = TelegramService::new(TOKEN.to_string());
    match svc.verify_init_data("a=%FF&hash=00") {
        Err(AppError::Internal(m)) => assert!(!m.is_empty()),
        other => panic!("expected an internal error, got {other:?}"),
    }
}

#[test]
fn empty_data_check_string_when_only_hash() {
    let h = sign(TOKEN, "");
    let svc = TelegramService::new(TOKEN.to_string());
    assert_eq!(svc.verify_init_data(&format!("hash={h}")), Ok(true));
}

#[test]
fn reordered_undecodable_data_fails_the_same_way() {
    let svc = TelegramService::new(TOKEN.to_string());
    for init in ["a=%FF&b=1&hash=00", "b=1&hash=00&a=%FF"] {
        assert!(matches!(svc.verify_init_data(init), Err(AppError::Internal(_))), "{init}");
    }
}
