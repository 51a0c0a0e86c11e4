use mttp::parallel::join;
use mttp::text::{chars_of, decimal, format_seconds, is_whitespace, parse_unsigned, string_from_chars, to_ascii_uppercase, trim};

#[test]
fn trim_removes_unicode_white_space() {
    assert_eq!(trim("  a b \n"), "a b");
    assert_eq!(trim("\u{3000}x\u{a0}"), "x");
    assert_eq!(trim("   "), "");
    assert_eq!(trim(""), "");
    for s in ["\t\tkeep me\r\n", "x", " \u{2028} y \u{85}"] {
        assert_eq!(trim(s), s.trim());
    }
}

#[test]
fn upper_case_is_ascii_only() {
    assert_eq!(to_ascii_uppercase("Multi-thread ä"), "MULTI-THREAD ä");
}

#[test]
fn decimal_notation() {
    assert_eq!(decimal(0), "0");
    assert_eq!(decimal(7), "7");
    assert_eq!(decimal(1_234_567_890), "1234567890");
    assert_eq!(decimal(u64::MAX), u64::MAX.to_string());
}

#[test]
fn parse_unsigned_like_std() {
    for s in ["0", "42", "+42", "007", "", "+", "-1", " 1", "1 ", "1_000", "255", "256", "٣"] {
        let expected = s.parse::<u8>().ok().map(u64::from);
        assert_eq!(parse_unsigned(s, 255), expected, "{:?}", s);
    }
    assert_eq!(parse_unsigned("18446744073709551615", u64::MAX), Some(u64::MAX));
    assert_eq!(parse_unsigned("18446744073709551616", u64::MAX), None);
}

#[test]
fn white_space_matches_char() {
    for c in ['\t', '\n', '\u{b}', '\u{c}', '\r', ' ', '\u{85}', '\u{a0}', '\u{1680}', '\u{2000}', '\u{200a}', '\u{2028}', '\u{2029}', '\u{202f}', '\u{205f}', '\u{3000}', 'a', '\u{200b}', '0', '\u{180e}'] {
        assert_eq!(is_whitespace(c), c.is_whitespace(), "{:?}", c);
    }
}

#[test]
fn seconds_with_four_decimals() {
    assert_eq!(format_seconds(1, 500_000_000), "1.5000");
    assert_eq!(format_seconds(0, 123_456_789), "0.1235");
    assert_eq!(format_seconds(12, 0), "12.0000");
}

#[test]
fn characters_round_trip() {
    let chars = chars_of("héllo");
    assert_eq!(chars, vec!['h', 'é', 'l', 'l', 'o']);
    assert_eq!(string_from_chars(&chars, 1, 4), "éll");
}

#[test]
fn join_runs_both_closures() {
    let (a, b) = join(|| 2 + 3, || "x".repeat(3));
    assert_eq!(a, 5);
    assert_eq!(b, "xxx");
}
