use er::text::{char_is_space, chars_of, slice_of, string_of, trim_chars};

fn trimmed(s: &str) -> String {
    trim_chars(&s.chars().collect()).into_iter().collect()
}

#[test]
fn white_space_is_what_the_standard_library_says() {
    for n in 0..=0x10FFFFu32 {
        if let Some(c) = char::from_u32(n) {
            assert_eq!(char_is_space(c), c.is_whitespace(), "code point {:x}", n);
        }
    }
}

#[test]
fn blank_tab_and_line_breaks_are_white_space() {
    for c in [' ', '\t', '\n', '\r', '\u{b}', '\u{c}', '\u{85}', '\u{a0}', '\u{3000}'] {
        assert!(char_is_space(c));
    }
    for c in ['a', '|', '0', '\u{200b}', '\u{180e}', '\u{feff}'] {
        assert!(!char_is_space(c));
    }
}

#[test]
fn chars_of_lists_the_characters() {
    assert_eq!(chars_of(""), Vec::<char>::new());
    assert_eq!(chars_of("a b"), vec!['a', ' ', 'b']);
    assert_eq!(chars_of("é|ß"), vec!['é', '|', 'ß']);
}

#[test]
fn string_of_takes_the_range() {
    let v = chars_of("hello world");
    assert_eq!(string_of(&v, 0, 5), "hello");
    assert_eq!(string_of(&v, 6, 11), "world");
    assert_eq!(string_of(&v, 3, 3), "");
    assert_eq!(slice_of(&v, 4, 7), vec!['o', ' ', 'w']);
}

#[test]
fn trim_removes_white_space_at_both_ends_only() {
    assert_eq!(trimmed("  a b  "), "a b");
    assert_eq!(trimmed("\t\r\n x\u{a0}"), "x");
    assert_eq!(trimmed("x"), "x");
    assert_eq!(trimmed(""), "");
    assert_eq!(trimmed(" \t \n"), "");
    assert_eq!(trimmed("a \t b"), "a \t b");
}

#[test]
fn trim_agrees_with_the_standard_library() {
    for s in ["", " ", "a", " a", "a ", "  |  | ", "\u{2003}x y\u{2003}", "\n\nls -l\r\n", "é "] {
        assert_eq!(trimmed(s), s.trim());
    }
}

#[test]
fn trim_is_idempotent() {
    for s in ["  a b  ", "", "   ", "x", "\ta | b\n"] {
        assert_eq!(trimmed(&trimmed(s)), trimmed(s));
    }
}
