use tap_game::decimal::{format_i64, parse_i32, parse_i64, parse_u16, parse_u64, parse_usize};

#[test]
fn parses_plain_and_signed_i64() {
    assert_eq!(parse_i64("42"), Some(42));
    assert_eq!(parse_i64("+42"), Some(42));
    assert_eq!(parse_i64("-42"), Some(-42));
    assert_eq!(parse_i64("-0"), Some(0));
    assert_eq!(parse_i64("007"), Some(7));
}

#[test]
fn rejects_malformed_integers() {
    assert_eq!(parse_i64(""), None);
    assert_eq!(parse_i64("+"), None);
    assert_eq!(parse_i64("-"), None);
    assert_eq!(parse_i64(" 1"), None);
    assert_eq!(parse_i64("1 "), None);
    assert_eq!(parse_i64("1a"), None);
    assert_eq!(parse_i64("١"), None);
}

#[test]
fn i64_bounds_are_exact() {
    assert_eq!(parse_i64("9223372036854775807"), Some(i64::MAX));
    assert_eq!(parse_i64("9223372036854775808"), None);
    assert_eq!(parse_i64("-9223372036854775808"), Some(i64::MIN));
    assert_eq!(parse_i64("-9223372036854775809"), None);
}

#[test]
fn unsigned_parsers_refuse_minus() {
    assert_eq!(parse_u64("-1"), None);
    assert_eq!(parse_u64("-0"), None);
    assert_eq!(parse_u64("+18446744073709551615"), Some(u64::MAX));
    assert_eq!(parse_u64("18446744073709551616"), None);
    assert_eq!(parse_usize("4096"), Some(4096));
    assert_eq!(parse_u16("65535"), Some(65535));
    assert_eq!(parse_u16("65536"), None);
    assert_eq!(parse_i32("-2147483648"), Some(i32::MIN));
    assert_eq!(parse_i32("2147483648"), None);
}

#[test]
fn parsers_agree_with_std() {
    let samples = ["0", "12", "-12", "+7", "", "-", "+", "99999999999999999999", "4294967296", "65536", "x1", "1_000"];
    for s in samples.iter() {
        assert_eq!(parse_i64(s), s.parse::<i64>().ok(), "i64 {s}");
        assert_eq!(parse_u64(s), s.parse::<u64>().ok(), "u64 {s}");
        assert_eq!(parse_u16(s), s.parse::<u16>().ok(), "u16 {s}");
        assert_eq!(parse_i32(s), s.parse::<i32>().ok(), "i32 {s}");
        assert_eq!(parse_usize(s), s.parse::<usize>().ok(), "usize {s}");
    }
}

#[test]
fn formats_like_to_string() {
    for x in [0i64, 5, 10, 42, -1, -10, 1234567890, i64::MAX, i64::MIN] {
        assert_eq!(format_i64(x), x.to_string());
    }
}

#[test]
fn text_of_an_i64_parses_back() {
    for x in [0i64, 7, -7, 100, i64::MAX, i64::MIN, -9000] {
        assert_eq!(parse_i64(&format_i64(x)), Some(x));
    }
}
