use subblock_host::decimal::{parse_u64, render_u64};

#[test]
fn renders_small_and_large_numbers() {
    assert_eq!(render_u64(0), "0");
    assert_eq!(render_u64(7), "7");
    assert_eq!(render_u64(10), "10");
    assert_eq!(render_u64(12345), "12345");
    assert_eq!(render_u64(u64::MAX), "18446744073709551615");
}

#[test]
fn renders_as_display_does() {
    for n in [0u64, 1, 9, 10, 99, 100, 65535, 30_000_000, u64::MAX - 1, u64::MAX] {
        assert_eq!(render_u64(n), format!("{}", n));
    }
}

#[test]
fn parses_plain_and_signed_digits() {
    assert_eq!(parse_u64("42"), Some(42));
    assert_eq!(parse_u64("+7"), Some(7));
    assert_eq!(parse_u64("007"), Some(7));
    assert_eq!(parse_u64("18446744073709551615"), Some(u64::MAX));
}

#[test]
fn rejects_what_std_rejects() {
    assert_eq!(parse_u64(""), None);
    assert_eq!(parse_u64("+"), None);
    assert_eq!(parse_u64("-1"), None);
    assert_eq!(parse_u64(" 1"), None);
    assert_eq!(parse_u64("1 "), None);
    assert_eq!(parse_u64("12a"), None);
    assert_eq!(parse_u64("18446744073709551616"), None);
    assert_eq!(parse_u64("99999999999999999999999"), None);
}

#[test]
fn agrees_with_std_parse() {
    for s in ["0", "+0", "123", "+", "-0", "1_000", "30000000", "١٢", "18446744073709551615", "18446744073709551616"] {
        assert_eq!(parse_u64(s), s.parse::<u64>().ok(), "input {:?}", s);
    }
}

#[test]
fn parse_of_render_roundtrip() {
    for n in [0u64, 5, 10, 4096, 123_456_789, u64::MAX] {
        assert_eq!(parse_u64(&render_u64(n)), Some(n));
    }
}
