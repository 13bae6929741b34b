use tap_game::config::{parallelism_from, parallelism_setting};
use tap_game::config::{expiry_hours_from, i32_setting, port_from, u64_setting, usize_setting, Config};

#[test]
fn port_defaults_and_parses() {
    assert_eq!(port_from(None), Some(3000));
    assert_eq!(port_from(Some("8080")), Some(8080));
    assert_eq!(port_from(Some("http")), None);
    assert_eq!(port_from(Some("70000")), None);
}

#[test]
fn expiry_hours_fall_back_to_24() {
    assert_eq!(expiry_hours_from(None), 24);
    assert_eq!(expiry_hours_from(Some("48")), 48);
    assert_eq!(expiry_hours_from(Some("two")), 24);
}

#[test]
fn numeric_settings() {
    assert_eq!(usize_setting(Some("16"), 4), 16);
    assert_eq!(usize_setting(Some("-1"), 4), 4);
    assert_eq!(usize_setting(None, 4), 4);
    assert_eq!(u64_setting(Some("60000"), 1), 60000);
    assert_eq!(u64_setting(Some(""), 1), 1);
    assert_eq!(i32_setting(Some("4096"), 1), 4096);
    assert_eq!(i32_setting(Some("4096x"), 1), 1);
}

#[test]
fn config_defaults() {
    let c = Config::from_parts("db".into(), "tok".into(), None, 3000, None, 24, "redis://r".into());
    assert_eq!(c.jwt_secret, "your-secret-key-change-this");
    assert_eq!(c.cors_origin, "https://sdsd-ashy.vercel.app");
    let c = Config::from_parts("db".into(), "tok".into(), Some("s".into()), 1, Some("o".into()), 2, "r".into());
    assert_eq!(c.jwt_secret, "s");
    assert_eq!(c.cors_origin, "o");
    assert_eq!(c.port, 1);
}

#[test]
fn parallelism_defaults_to_twice_the_cpus() {
    assert_eq!(parallelism_setting(Some("8"), 4), Some(8));
    assert_eq!(parallelism_setting(None, 4), Some(8));
    assert_eq!(parallelism_setting(Some("many"), 3), Some(6));
    assert_eq!(parallelism_setting(Some("-1"), 3), Some(6));
    assert_eq!(parallelism_setting(None, usize::MAX), None);
    assert_eq!(parallelism_from(Some("5")), Some(5));
    let n = parallelism_from(None).unwrap();
    assert!(n >= 2 && n % 2 == 0);
}
