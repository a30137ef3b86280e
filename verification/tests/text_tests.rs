use daily_commando::text::{center, decimal_string, pad_left, pad_right, parse_u32, take_chars};

#[test]
fn parsing_numbers() {
    assert_eq!(parse_u32("0"), Some(0));
    assert_eq!(parse_u32("42"), Some(42));
    assert_eq!(parse_u32("+7"), Some(7));
    assert_eq!(parse_u32("007"), Some(7));
    assert_eq!(parse_u32("4294967295"), Some(u32::MAX));
    assert_eq!(parse_u32("4294967296"), None);
    assert_eq!(parse_u32(""), None);
    assert_eq!(parse_u32("+"), None);
    assert_eq!(parse_u32("-1"), None);
    assert_eq!(parse_u32("1a"), None);
    for s in ["", "+", "12", "99999999999", "+0", "3x"] {
        assert_eq!(parse_u32(s), s.parse::<u32>().ok());
    }
}

#[test]
fn decimal_strings() {
    assert_eq!(decimal_string(0), "0");
    assert_eq!(decimal_string(10), "10");
    assert_eq!(decimal_string(u32::MAX), u32::MAX.to_string());
}

#[test]
fn padding() {
    assert_eq!(pad_right("ab", 4), "ab  ");
    assert_eq!(pad_right("abcde", 4), "abcde");
    assert_eq!(pad_left("7", 2), " 7");
    assert_eq!(center("ab", 7), "  ab   ");
    assert_eq!(center("é", 4), format!("{:^4}", "é"));
    assert_eq!(take_chars("Zoë Smith", 3), "Zoë");
    assert_eq!(take_chars("Al", 8), "Al");
}
