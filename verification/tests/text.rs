//! Behavior of the character-sequence utilities.

use breach_tracker::text::{
    chars_eq, chars_to_string, contains, find, int_to_chars, lower, parse_i32, replace_seq,
    split_seq, subvec, to_chars, trim,
};

fn chars(s: &str) -> Vec<char> {
    s.chars().collect()
}

fn strings(parts: Vec<Vec<char>>) -> Vec<String> {
    parts.iter().map(|p| p.iter().collect()).collect()
}

#[test]
fn find_returns_the_leftmost_occurrence() {
    assert_eq!(find(&chars("abcabc"), &chars("bc")), Some(1));
    assert_eq!(find(&chars("abcabc"), &chars("cb")), None);
    assert_eq!(find(&chars("short"), &chars("longer than short")), None);
}

#[test]
fn contains_and_equality() {
    assert!(contains(&chars("a password leaked"), &chars("password")));
    assert!(!contains(&chars("a pass word"), &chars("password")));
    assert!(chars_eq(&chars("same"), &chars("same")));
    assert!(!chars_eq(&chars("same"), &chars("Same")));
}

#[test]
fn split_keeps_every_segment() {
    let parts = split_seq(&chars("a;;b;"), &chars(";"));
    assert_eq!(strings(parts), vec!["a", "", "b", ""]);
    let whole = split_seq(&chars("no separator"), &chars(";"));
    assert_eq!(strings(whole), vec!["no separator"]);
}

#[test]
fn replace_rewrites_every_occurrence() {
    let got = replace_seq(&chars("one and two and three"), &chars("and"), &chars(","));
    assert_eq!(chars_to_string(&got), "one , two , three");
    let dropped = replace_seq(&chars("1,234,567"), &chars(","), &chars(""));
    assert_eq!(chars_to_string(&dropped), "1234567");
}

#[test]
fn trim_and_lower() {
    assert_eq!(chars_to_string(&trim(&chars("  \t padded \r\n"))), "padded");
    assert_eq!(chars_to_string(&trim(&chars("   "))), "");
    assert_eq!(chars_to_string(&lower(&chars("MiXeD 123!"))), "mixed 123!");
}

#[test]
fn parse_i32_follows_the_standard_parser() {
    assert_eq!(parse_i32(&chars("0")), Some(0));
    assert_eq!(parse_i32(&chars("12345")), Some(12345));
    assert_eq!(parse_i32(&chars("-17")), Some(-17));
    assert_eq!(parse_i32(&chars("+17")), Some(17));
    assert_eq!(parse_i32(&chars("2147483647")), Some(i32::MAX));
    assert_eq!(parse_i32(&chars("-2147483648")), Some(i32::MIN));
    assert_eq!(parse_i32(&chars("2147483648")), None);
    assert_eq!(parse_i32(&chars("99999999999999999999")), None);
    assert_eq!(parse_i32(&chars("12a")), None);
    assert_eq!(parse_i32(&chars("")), None);
    assert_eq!(parse_i32(&chars(" 5")), None);
}

#[test]
fn formatting_a_page_index() {
    assert_eq!(chars_to_string(&int_to_chars(0)), "0");
    assert_eq!(chars_to_string(&int_to_chars(30)), "30");
    assert_eq!(chars_to_string(&int_to_chars(2147483647)), "2147483647");
}

#[test]
fn subvec_copies_the_range() {
    assert_eq!(chars_to_string(&subvec(&chars("abcdef"), 1, 4)), "bcd");
    assert_eq!(chars_to_string(&to_chars("round trip")), "round trip");
}
