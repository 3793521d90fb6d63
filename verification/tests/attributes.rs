use rusty_painter::attributes::{format_i32, parse_i32};
use rusty_painter::raster::dims_ok;

#[test]
fn parses_plain_digits() {
    assert_eq!(parse_i32(b"0"), Some(0));
    assert_eq!(parse_i32(b"7"), Some(7));
    assert_eq!(parse_i32(b"640"), Some(640));
    assert_eq!(parse_i32(b"480"), Some(480));
}

#[test]
fn parses_signs() {
    assert_eq!(parse_i32(b"+42"), Some(42));
    assert_eq!(parse_i32(b"-42"), Some(-42));
    assert_eq!(parse_i32(b"-0"), Some(0));
}

#[test]
fn parses_leading_zeros() {
    assert_eq!(parse_i32(b"007"), Some(7));
    assert_eq!(parse_i32(b"0000000000000640"), Some(640));
}

#[test]
fn rejects_empty_and_bare_signs() {
    assert_eq!(parse_i32(b""), None);
    assert_eq!(parse_i32(b"+"), None);
    assert_eq!(parse_i32(b"-"), None);
}

#[test]
fn rejects_non_digits() {
    assert_eq!(parse_i32(b"12a"), None);
    assert_eq!(parse_i32(b"a12"), None);
    assert_eq!(parse_i32(b" 12"), None);
    assert_eq!(parse_i32(b"12 "), None);
    assert_eq!(parse_i32(b"1.5"), None);
    assert_eq!(parse_i32(b"--1"), None);
}

#[test]
fn honours_the_i32_range() {
    assert_eq!(parse_i32(b"2147483647"), Some(i32::MAX));
    assert_eq!(parse_i32(b"2147483648"), None);
    assert_eq!(parse_i32(b"-2147483648"), Some(i32::MIN));
    assert_eq!(parse_i32(b"-2147483649"), None);
    assert_eq!(parse_i32(b"99999999999999999999"), None);
}

#[test]
fn agrees_with_the_standard_parser() {
    for text in ["0", "-1", "+17", "2147483647", "-2147483648", "007", "9999999999", "4x", ""] {
        assert_eq!(parse_i32(text.as_bytes()), text.parse::<i32>().ok(), "on {:?}", text);
    }
}

#[test]
fn formats_canonical_decimal_text() {
    assert_eq!(format_i32(0), b"0");
    assert_eq!(format_i32(7), b"7");
    assert_eq!(format_i32(640), b"640");
    assert_eq!(format_i32(-120), b"-120");
    assert_eq!(format_i32(i32::MAX), b"2147483647");
    assert_eq!(format_i32(i32::MIN), b"-2147483648");
}

#[test]
fn formatting_matches_the_standard_display() {
    for v in [0, 1, -1, 9, 10, -10, 99, 100, 12345, -98765, i32::MAX, i32::MIN] {
        assert_eq!(format_i32(v), v.to_string().into_bytes(), "on {}", v);
    }
}

#[test]
fn formatted_text_parses_back() {
    for v in [0, 5, -5, 480, -640, 1000000, i32::MAX, i32::MIN] {
        assert_eq!(parse_i32(&format_i32(v)), Some(v), "on {}", v);
    }
}

#[test]
fn dimension_check_brackets_the_accepted_range() {
    assert!(dims_ok(1, 1));
    assert!(dims_ok(640, 480));
    assert!(dims_ok(16384, 16384));
    assert!(!dims_ok(0, 5));
    assert!(!dims_ok(5, 0));
    assert!(!dims_ok(16385, 1));
    assert!(!dims_ok(-3, 2));
}
