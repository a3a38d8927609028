use discord_bot::text::{parse_i32, push_i64, push_u64};

fn decimal(n: i64) -> String {
    let mut s = String::new();
    push_i64(&mut s, n);
    s
}

#[test]
fn writes_numbers_in_decimal() {
    assert_eq!(decimal(0), "0");
    assert_eq!(decimal(7), "7");
    assert_eq!(decimal(3000), "3000");
    assert_eq!(decimal(-42), "-42");
    assert_eq!(decimal(i64::MIN), "-9223372036854775808");
    assert_eq!(decimal(i64::MAX), "9223372036854775807");
    let mut s = String::from("wait ");
    push_u64(&mut s, u64::MAX);
    assert_eq!(s, "wait 18446744073709551615");
}

#[test]
fn parses_i32_like_std() {
    assert_eq!(parse_i32("42"), Some(42));
    assert_eq!(parse_i32("-7"), Some(-7));
    assert_eq!(parse_i32("+5"), Some(5));
    assert_eq!(parse_i32("007"), Some(7));
    assert_eq!(parse_i32("2147483647"), Some(i32::MAX));
    assert_eq!(parse_i32("-2147483648"), Some(i32::MIN));
    assert_eq!(parse_i32("2147483648"), None);
    assert_eq!(parse_i32("-2147483649"), None);
    assert_eq!(parse_i32("99999999999999999999"), None);
    assert_eq!(parse_i32(""), None);
    assert_eq!(parse_i32("-"), None);
    assert_eq!(parse_i32("+"), None);
    assert_eq!(parse_i32(" 1"), None);
    assert_eq!(parse_i32("1a"), None);
    assert_eq!(parse_i32("١"), None);
    for s in ["0", "12", "-12", "+0", "x", "--1", "1 ", "2147483647", "-2147483648", "3000000000"] {
        assert_eq!(parse_i32(s), s.parse::<i32>().ok(), "{}", s);
    }
}

#[test]
fn round_trip_of_decimal_and_parse() {
    for n in [0, 1, -1, 9, 10, -10, 3000, i32::MAX, i32::MIN, 123456789, -987654321] {
        assert_eq!(parse_i32(&decimal(n as i64)), Some(n));
    }
}
