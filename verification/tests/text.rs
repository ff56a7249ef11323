use chatatui::text::{
    after_last, before_first, chars_of, contains, contains_char, decimal, ends_with_char, find,
    first_word, is_blank, is_white_space, join, lines, same, slice, split_once, starts_with,
    starts_with_char, trim, trim_end_char,
};

fn owned(parts: &[&str]) -> Vec<String> {
    parts.iter().map(|p| p.to_string()).collect()
}

#[test]
fn white_space_is_that_of_std() {
    for n in 0..=0x10ffffu32 {
        if let Some(c) = char::from_u32(n) {
            assert_eq!(is_white_space(c), c.is_whitespace(), "{:x}", n);
        }
    }
}

#[test]
fn characters_and_slices() {
    assert_eq!(chars_of("aß▶"), vec!['a', 'ß', '▶']);
    assert_eq!(slice("aß▶b", 1, 3), "ß▶");
    assert_eq!(slice("abc", 2, 2), "");
    assert!(same("ä", "ä"));
    assert!(!same("a", "ab"));
}

#[test]
fn searching_counts_characters() {
    assert_eq!(find("äb||c", "||"), Some(2));
    assert_eq!(find("abc", ""), Some(0));
    assert_eq!(find("ab", "abc"), None);
    assert_eq!(find("aab", "ab"), Some(1));
    assert!(contains("hello", "ell"));
    assert!(!contains("hello", "elk"));
    assert!(contains("", ""));
    assert!(contains_char("a:b", ':'));
    assert!(!contains_char("ab", ':'));
    assert!(starts_with("/new", "/n"));
    assert!(!starts_with("/n", "/new"));
    assert!(starts_with_char("/n", '/'));
    assert!(!starts_with_char("", '/'));
    assert!(ends_with_char("a/", '/'));
    assert!(!ends_with_char("", '/'));
}

#[test]
fn cutting_at_separators() {
    assert_eq!(split_once("a||b||c", "||"), Some(("a".to_string(), "b||c".to_string())));
    assert_eq!(split_once("abc", "||"), None);
    assert_eq!(after_last("a://b://c", "://"), "c");
    assert_eq!(after_last("abc", "://"), "abc");
    assert_eq!(before_first("a.b.c", "."), "a");
    assert_eq!(before_first("abc", "."), "abc");
}

#[test]
fn trimming() {
    assert_eq!(trim(" \t a b \u{3000}\n"), "a b");
    assert_eq!(trim(" \n"), "");
    assert!(is_blank("\u{a0} "));
    assert!(!is_blank(" x"));
    assert_eq!(trim_end_char("http://x//", '/'), "http://x");
    assert_eq!(trim_end_char("//", '/'), "");
    assert_eq!(first_word("  one two"), Some("one".to_string()));
    assert_eq!(first_word("   "), None);
}

#[test]
fn lines_are_those_of_std() {
    for s in ["", "a", "a\n", "a\nb", "a\r\nb\r", "\n\n", "a\n\nb\n", "\r\n", "x\ry"] {
        let wanted: Vec<String> = s.lines().map(|l| l.to_string()).collect();
        assert_eq!(lines(s), wanted, "{:?}", s);
    }
}

#[test]
fn joining() {
    assert_eq!(join(&owned(&["a", "b", "c"]), ", "), "a, b, c");
    assert_eq!(join(&owned(&["a"]), ", "), "a");
    assert_eq!(join(&owned(&[]), ", "), "");
}

#[test]
fn numbers_in_decimal() {
    for n in [0, 7, 10, 99, 100, 65535, u64::MAX] {
        assert_eq!(decimal(n), n.to_string());
    }
}
