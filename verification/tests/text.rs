use status_monitor::text::{
    chars_of, contains, decimal_text, one_decimal_text, starts_with, strip_prefix, trim_leading,
    trim_leading_text,
};

#[test]
fn numbers_are_written_in_decimal() {
    assert_eq!(decimal_text(0), "0");
    assert_eq!(decimal_text(7), "7");
    assert_eq!(decimal_text(10), "10");
    assert_eq!(decimal_text(1234567890), "1234567890");
    assert_eq!(decimal_text(u64::MAX), u64::MAX.to_string());
}

#[test]
fn readings_are_written_with_one_decimal() {
    assert_eq!(one_decimal_text(0), "0.0");
    assert_eq!(one_decimal_text(49), "0.0");
    assert_eq!(one_decimal_text(50), "0.1");
    assert_eq!(one_decimal_text(85000), "85.0");
    assert_eq!(one_decimal_text(85049), "85.0");
    assert_eq!(one_decimal_text(85050), "85.1");
    assert_eq!(one_decimal_text(99999), "100.0");
    assert_eq!(one_decimal_text(u64::MAX), "18446744073709551.6");
}

#[test]
fn texts_are_searched_by_character() {
    assert!(contains("status-monitor-client-linux-x86_64.tar.gz", "client-linux"));
    assert!(contains("abc", ""));
    assert!(contains("", ""));
    assert!(contains("abc", "abc"));
    assert!(contains("aab", "ab"));
    assert!(!contains("abc", "abcd"));
    assert!(!contains("abc", "ba"));
    assert!(contains("gr\u{fc}\u{df}e", "\u{df}e"));
    for (text, needle) in [("a-b-c", "-c"), ("a-b-c", "c-"), ("xyz", "z"), ("xyz", "x"), ("", "x")] {
        assert_eq!(contains(text, needle), text.contains(needle));
    }
}

#[test]
fn prefixes_are_stripped_once() {
    assert!(starts_with("Bearer x", "Bearer "));
    assert!(starts_with("x", ""));
    assert!(!starts_with("Bear", "Bearer "));
    assert_eq!(strip_prefix("Bearer Bearer x", "Bearer "), Some("Bearer x".to_string()));
    assert_eq!(strip_prefix("\u{e9}t\u{e9}", "\u{e9}"), Some("t\u{e9}".to_string()));
    assert_eq!(strip_prefix("abc", "b"), None);
}

#[test]
fn leading_characters_are_trimmed() {
    assert_eq!(trim_leading("v1.2.3", 'v'), "1.2.3");
    assert_eq!(trim_leading("vvv", 'v'), "");
    assert_eq!(trim_leading("1.v2", 'v'), "1.v2");
    assert_eq!(trim_leading("", 'v'), "");
    assert_eq!(chars_of("a\u{df}c"), vec!['a', '\u{df}', 'c']);
}

#[test]
fn leading_copies_of_a_text_are_trimmed() {
    assert_eq!(trim_leading_text("sqlite:data/monitor.db", "sqlite:"), "data/monitor.db");
    assert_eq!(trim_leading_text("sqlite:sqlite:x", "sqlite:"), "x");
    assert_eq!(trim_leading_text("sqlite", "sqlite:"), "sqlite");
    assert_eq!(trim_leading_text("abab", "ab"), "");
    assert_eq!(trim_leading_text("aba", "ab"), "a");
    assert_eq!(trim_leading_text("abc", ""), "abc");
    for (text, prefix) in [("xxy", "x"), ("xyxyz", "xy"), ("", "x"), ("zz", "zzz")] {
        assert_eq!(trim_leading_text(text, prefix), text.trim_start_matches(prefix));
    }
}
