use std::cmp::Ordering;

use navi::text::{
    concat3, contains_str, decimal, ends_with_str, join_strings, lex_less_str, lex_order, lines, split_whitespace, starts_with_str,
    strip_prefix_str, substring, trim_str,
};

fn strings(xs: &[&str]) -> Vec<String> {
    xs.iter().map(|s| s.to_string()).collect()
}

#[test]
fn decimal_numbers() {
    assert_eq!(decimal(0), "0");
    assert_eq!(decimal(1234567890), "1234567890");
    assert_eq!(decimal(u64::MAX), u64::MAX.to_string());
}

#[test]
fn joining_and_splitting() {
    assert_eq!(join_strings(&strings(&["a", "b", "c"]), ", "), "a, b, c");
    assert_eq!(join_strings(&vec![], ", "), "");
    assert_eq!(split_whitespace("  a \t b\nc  "), strings(&["a", "b", "c"]));
    assert!(split_whitespace("   ").is_empty());
}

#[test]
fn lines_like_std() {
    assert_eq!(lines("a\nb\r\nc"), strings(&["a", "b", "c"]));
    assert_eq!(lines("a\n"), strings(&["a"]));
    assert_eq!(lines("a\n\nb"), strings(&["a", "", "b"]));
    assert!(lines("").is_empty());
}

#[test]
fn trimming_and_prefixes() {
    assert_eq!(trim_str("  x y \n"), "x y");
    assert_eq!(strip_prefix_str("gcp:zone:z1", "gcp:zone:"), Some("z1".to_string()));
    assert_eq!(strip_prefix_str("gcp:zone", "gcp:zone:"), None);
    assert!(starts_with_str("abc", "ab"));
    assert!(ends_with_str("abc", "bc"));
    assert!(contains_str("abc", "b"));
    assert!(!contains_str("abc", "d"));
    assert_eq!(substring("hello", 1, 4), "ell");
    assert_eq!(concat3("a", "b", "c"), "abc");
}

#[test]
fn lexical_order() {
    assert!(lex_less_str("ab", "b"));
    assert!(lex_less_str("a", "ab"));
    assert!(!lex_less_str("b", "ab"));
    assert_eq!(lex_order("x", "x"), Ordering::Equal);
    assert_eq!(lex_order("x", "y"), Ordering::Less);
    assert_eq!(lex_order("y", "x"), Ordering::Greater);
}
