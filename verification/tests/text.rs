use datazen::form::optional_string;
use datazen::text::{i64_text, parse_u16, trim, u64_text};

#[test]
fn trim_removes_unicode_white_space_at_both_ends() {
    assert_eq!(trim("  primary \t\n"), "primary");
    assert_eq!(trim("\u{3000}\u{a0}db one\u{2029}"), "db one");
    assert_eq!(trim("   "), "");
    assert_eq!(trim(""), "");
    assert_eq!(trim("a  b"), "a  b");
    assert_eq!(trim("\u{200b}x"), "\u{200b}x");
}

#[test]
fn trimming_twice_is_trimming_once() {
    for text in ["  x ", "\t\u{85}y\u{205f}", "", "  ", "plain"] {
        assert_eq!(trim(trim(text)), trim(text));
    }
}

#[test]
fn optional_string_drops_blank_text() {
    assert_eq!(optional_string("  localhost ".to_string()), Some("localhost".to_string()));
    assert_eq!(optional_string(" \t ".to_string()), None);
    assert_eq!(optional_string(String::new()), None);
}

#[test]
fn ports_parse_as_u16_does() {
    assert_eq!(parse_u16("5432"), Some(5432));
    assert_eq!(parse_u16("+80"), Some(80));
    assert_eq!(parse_u16("007"), Some(7));
    assert_eq!(parse_u16("0"), Some(0));
    assert_eq!(parse_u16("65535"), Some(65535));
    assert_eq!(parse_u16("65536"), None);
    assert_eq!(parse_u16("123456789012345678901234567890"), None);
    assert_eq!(parse_u16(""), None);
    assert_eq!(parse_u16("+"), None);
    assert_eq!(parse_u16("-1"), None);
    assert_eq!(parse_u16("12a"), None);
    assert_eq!(parse_u16(" 12"), None);
    for text in ["5432", "+80", "65536", "", "+", "-0", "x1", "00065535"] {
        assert_eq!(parse_u16(text), text.parse::<u16>().ok());
    }
}

#[test]
fn numbers_print_in_decimal() {
    assert_eq!(u64_text(0), "0");
    assert_eq!(u64_text(1234567), "1234567");
    assert_eq!(u64_text(u64::MAX), u64::MAX.to_string());
    assert_eq!(i64_text(-42), "-42");
    assert_eq!(i64_text(i64::MIN), i64::MIN.to_string());
    assert_eq!(i64_text(i64::MAX), i64::MAX.to_string());
    assert_eq!(i64_text(0), "0");
}
