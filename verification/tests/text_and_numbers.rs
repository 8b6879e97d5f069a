use rusthub::num::{format_i64, format_u128, parse_i32, parse_i64, IntErrorKind};
use rusthub::text::{concat_str, names_something, split_str, str_eq, trim_str};

#[test]
fn trim_strips_unicode_white_space() {
    assert_eq!(trim_str("\t \u{3000} rust \u{a0}\n"), "rust");
    assert_eq!(trim_str("   "), "");
    assert_eq!(trim_str("a b"), "a b");
}

#[test]
fn trim_twice_is_trim_once() {
    let once = trim_str("  x y \u{2003}");
    assert_eq!(trim_str(&once), once);
}

#[test]
fn trim_matches_std() {
    for s in ["", " a ", "\u{85}b\u{2028}", "\u{200b}c", " \u{1680}d\u{205f}"] {
        assert_eq!(trim_str(s), s.trim());
    }
}

#[test]
fn split_keeps_empty_pieces() {
    assert_eq!(split_str("a,,b,", ','), vec!["a", "", "b", ""]);
    assert_eq!(split_str("", ','), vec![""]);
    assert_eq!(split_str("rust", ','), vec!["rust"]);
}

#[test]
fn split_then_join_gives_back() {
    let s = "x,y,,z";
    assert_eq!(split_str(s, ',').join(","), s);
    assert_eq!(split_str(s, ',').len(), s.matches(',').count() + 1);
}

#[test]
fn names_something_rejects_blank_and_dash() {
    assert!(!names_something(""));
    assert!(!names_something("  "));
    assert!(!names_something(" - "));
    assert!(names_something("--"));
    assert!(names_something(" bob "));
}

#[test]
fn string_helpers() {
    assert_eq!(concat_str("ab", "cd"), "abcd");
    assert!(str_eq("x", "x"));
    assert!(!str_eq("x", "y"));
}

#[test]
fn parse_i64_like_std() {
    assert_eq!(parse_i64("42"), Ok(42));
    assert_eq!(parse_i64("+7"), Ok(7));
    assert_eq!(parse_i64("-9223372036854775808"), Ok(i64::MIN));
    assert_eq!(parse_i64("9223372036854775807"), Ok(i64::MAX));
    assert_eq!(parse_i64(""), Err(IntErrorKind::Empty));
    assert_eq!(parse_i64("-"), Err(IntErrorKind::InvalidDigit));
    assert_eq!(parse_i64("+"), Err(IntErrorKind::InvalidDigit));
    assert_eq!(parse_i64("1x"), Err(IntErrorKind::InvalidDigit));
    assert_eq!(parse_i64(" 1"), Err(IntErrorKind::InvalidDigit));
    assert_eq!(parse_i64("9223372036854775808"), Err(IntErrorKind::PosOverflow));
    assert_eq!(parse_i64("-9223372036854775809"), Err(IntErrorKind::NegOverflow));
}

#[test]
fn parse_i32_like_std() {
    assert_eq!(parse_i32("2147483647"), Ok(i32::MAX));
    assert_eq!(parse_i32("2147483648"), Err(IntErrorKind::PosOverflow));
    assert_eq!(parse_i32("3000000000x"), Err(IntErrorKind::PosOverflow));
    assert_eq!(parse_i32("-2147483649"), Err(IntErrorKind::NegOverflow));
    assert_eq!(parse_i32("12a"), Err(IntErrorKind::InvalidDigit));
    for s in ["", "-", "0", "-0", "+12", "99999999999", "-1e3", "007"] {
        let std_kind = s.parse::<i32>().map_err(|e| format!("{}", e));
        let ours = parse_i32(s).map_err(|k| k.message());
        assert_eq!(ours, std_kind, "input {:?}", s);
    }
}

#[test]
fn error_messages_are_std_messages() {
    assert_eq!(IntErrorKind::Empty.message(), "cannot parse integer from empty string");
    assert_eq!(IntErrorKind::InvalidDigit.message(), "invalid digit found in string");
    assert_eq!(IntErrorKind::PosOverflow.message(), "number too large to fit in target type");
    assert_eq!(IntErrorKind::NegOverflow.message(), "number too small to fit in target type");
}

#[test]
fn format_like_to_string() {
    assert_eq!(format_i64(0), "0");
    assert_eq!(format_i64(-105), "-105");
    assert_eq!(format_i64(i64::MIN), i64::MIN.to_string());
    assert_eq!(format_u128(u128::MAX), u128::MAX.to_string());
}

#[test]
fn formatted_numbers_read_back() {
    for n in [0i64, 1, -1, 10, 1234567890, i64::MAX, i64::MIN] {
        assert_eq!(parse_i64(&format_i64(n)), Ok(n));
    }
}
