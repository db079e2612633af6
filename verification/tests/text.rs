use packet_flow::text::{characters, format_u64, occurs_once, parse_u64, same_text, starts_with};

#[test]
fn numbers_are_written_in_decimal() {
    assert_eq!(format_u64(0), "0");
    assert_eq!(format_u64(9), "9");
    assert_eq!(format_u64(10), "10");
    assert_eq!(format_u64(1234567890), "1234567890");
    assert_eq!(format_u64(u64::MAX), "18446744073709551615");
}

#[test]
fn numbers_are_read_as_the_standard_library_reads_them() {
    let texts = [
        "", "+", "-", "0", "+0", "-0", "7", "+7", "007", "1000", " 1000", "1000 ", "1_000", "10a",
        "a10", "++1", "+-1", "1.5", "\u{0661}", "18446744073709551615", "18446744073709551616",
        "99999999999999999999999", "00000000000000000000000000000000000012",
        "+18446744073709551615",
    ];
    for text in texts {
        assert_eq!(parse_u64(text), text.parse::<u64>().ok(), "{:?}", text);
    }
}

#[test]
fn written_numbers_read_back() {
    for n in [0, 1, 9, 10, 99, 100, 4096, u64::MAX - 1, u64::MAX] {
        assert_eq!(parse_u64(&format_u64(n)), Some(n));
        assert_eq!(parse_u64(&format!("+{}", format_u64(n))), Some(n));
    }
}

#[test]
fn one_occurrence_is_told_from_none_and_many() {
    for text in ["", "a", ":", "a:b", "::", "a:b:c", "[::1]:80", "\u{e4}:\u{1f600}"] {
        assert_eq!(occurs_once(text, ':'), text.split(':').count() == 2, "{:?}", text);
    }
}

#[test]
fn prefixes_and_equality() {
    assert!(starts_with("http://x", "http://"));
    assert!(starts_with("http://", "http://"));
    assert!(!starts_with("http:/", "http://"));
    assert!(!starts_with("HTTP://x", "http://"));
    assert!(starts_with("x", ""));
    assert!(same_text("both", "both"));
    assert!(!same_text("both", "bot"));
    assert!(!same_text("both", "Both"));
    assert_eq!(characters("a\u{e4}z"), vec!['a', '\u{e4}', 'z']);
}
