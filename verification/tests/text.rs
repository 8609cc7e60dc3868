use mcp_stdio_rs::text::{decimal_text, is_blank, is_white_space, joined, same_text, wrapped};

#[test]
fn white_space_is_that_of_unicode() {
    for point in 0..=0x10ffffu32 {
        if let Some(c) = char::from_u32(point) {
            assert_eq!(is_white_space(c), c.is_whitespace(), "{point:x}");
        }
    }
}

#[test]
fn blank_is_what_trimming_leaves_empty() {
    for line in ["", " ", "\t\r\n", "\u{a0}\u{2003}", " x ", "{}", "\u{200b}"] {
        assert_eq!(is_blank(line), line.trim().is_empty());
    }
}

#[test]
fn decimal_numbers() {
    for n in [0, 1, 9, 10, 11, 99, 100, 1234567890, u64::MAX - 1, u64::MAX] {
        assert_eq!(decimal_text(n), n.to_string());
    }
}

#[test]
fn text_is_the_same_or_not() {
    assert!(same_text("", ""));
    assert!(same_text("id", "id"));
    assert!(same_text("\u{e9}\u{1f600}", "\u{e9}\u{1f600}"));
    assert!(!same_text("id", "ids"));
    assert!(!same_text("uri", "url"));
    assert!(!same_text("\u{e9}", "e"));
}

#[test]
fn texts_are_put_together() {
    assert_eq!(joined("a", "b"), "ab");
    assert_eq!(wrapped("`", "cmd", "`"), "`cmd`");
}
