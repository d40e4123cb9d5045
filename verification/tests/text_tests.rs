use bevy_editor::text::{
    chars_of, joined, contains_chars, decimal_string, eq_ascii_lower, is_whitespace, lex_less,
    matches_filter, same_text, string_of, trim, with_forward_slashes,
};

#[test]
fn trimming() {
    assert_eq!(trim("  help \n"), "help");
    assert_eq!(trim("\t\u{3000}x y\u{a0}"), "x y");
    assert_eq!(trim("   "), "");
    assert_eq!(trim(""), "");
    assert!(is_whitespace('\u{2003}'));
    assert!(!is_whitespace('x'));
}

#[test]
fn lexicographic_order() {
    let a = chars_of("abc");
    let b = chars_of("abd");
    let p = chars_of("ab");
    assert!(lex_less(&a, &b));
    assert!(!lex_less(&b, &a));
    assert!(lex_less(&p, &a));
    assert!(!lex_less(&a, &a));
    assert!(lex_less(&chars_of("Z"), &chars_of("a")));
    assert!(lex_less(&chars_of("z"), &chars_of("\u{e9}")));
}

#[test]
fn filter_matching() {
    assert!(matches_filter("Demo Cube", ""));
    assert!(matches_filter("Demo Cube", "CUBE"));
    assert!(matches_filter("Demo Cube", "mo c"));
    assert!(!matches_filter("Demo Cube", "sphere"));
    assert!(matches_filter("\u{c9}cole", "\u{e9}c"));
}

#[test]
fn small_text_helpers() {
    assert!(same_text("abc", "abc"));
    assert!(!same_text("abc", "abd"));
    assert!(!same_text("abc", "ab"));
    assert_eq!(joined("ab", "cd"), "abcd");
    assert_eq!(string_of(&vec!['h', 'i']), "hi");
    assert_eq!(with_forward_slashes("a\\b\\c.png"), "a/b/c.png");
    assert!(eq_ascii_lower(&chars_of("PnG"), "png"));
    assert!(!eq_ascii_lower(&chars_of("PnG"), "PNG"));
    assert!(contains_chars(&chars_of("hello"), &chars_of("ll")));
    assert!(contains_chars(&chars_of("hello"), &chars_of("")));
    assert!(!contains_chars(&chars_of("he"), &chars_of("hello")));
}

#[test]
fn decimal_numbers() {
    assert_eq!(decimal_string(0), "0");
    assert_eq!(decimal_string(7), "7");
    assert_eq!(decimal_string(10), "10");
    assert_eq!(decimal_string(1234567890), "1234567890");
    assert_eq!(decimal_string(usize::MAX), usize::MAX.to_string());
}
