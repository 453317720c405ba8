use switchyard_route::text::{decimal, ends_with, hex, join, strip_brackets, text_eq, truncate_chars};

#[test]
fn decimal_rendering() {
    for value in [0, 7, 10, 199, 503, 1_048_576, u64::MAX] {
        assert_eq!(decimal(value), value.to_string());
    }
}

#[test]
fn hexadecimal_rendering_is_padded_and_distinct() {
    for value in [0, 0xAB, 0x0123_4567_89AB_CDEF, u64::MAX] {
        assert_eq!(hex(value, 16), format!("{value:016X}"));
    }
    assert_eq!(hex(0x1F2, 2), "F2");
    assert_eq!(hex(5, 0), "");
    assert_ne!(hex(1, 16), hex(2, 16));
}

#[test]
fn truncation_counts_characters() {
    assert_eq!(truncate_chars("\u{e9}\u{e9}\u{e9}", 2), "\u{e9}\u{e9}");
    assert_eq!(truncate_chars("abc", 3), "abc");
    assert_eq!(truncate_chars("abc", 0), "");
    assert_eq!(truncate_chars("", 4), "");
}

#[test]
fn brackets_are_stripped_at_their_own_end() {
    assert_eq!(strip_brackets("[::1]", '[', ']'), "::1");
    assert_eq!(strip_brackets("[[a]b]]", '[', ']'), "a]b");
    assert_eq!(strip_brackets("]a[", '[', ']'), "]a[");
    assert_eq!(strip_brackets("[[]]", '[', ']'), "");
    assert_eq!(strip_brackets("", '[', ']'), "");
}

#[test]
fn suffixes_and_equality() {
    assert!(ends_with("/v1/chat/completions", "/chat/completions"));
    assert!(ends_with("abc", ""));
    assert!(!ends_with("c", "bc"));
    assert!(text_eq("a\u{e9}", "a\u{e9}"));
    assert!(!text_eq("a", "A"));
    assert_eq!(join("a", "b"), "ab");
}
