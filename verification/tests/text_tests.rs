use rusty_tools::text::contains_sub;
use rusty_tools::text::find_sub;
use rusty_tools::text::parse_i32;
use rusty_tools::text::split_lines;
use rusty_tools::text::starts_with_sub;
use rusty_tools::text::str_eq;
use rusty_tools::text::trim_str;

#[test]
fn find_sub_reports_first_occurrence() {
    assert_eq!(find_sub("abcabc", "bc"), Some(1));
    assert_eq!(find_sub("abc", "zx"), None);
    assert_eq!(find_sub("abc", ""), Some(0));
    assert_eq!(find_sub("", "a"), None);
}

#[test]
fn contains_and_starts_with() {
    assert!(contains_sub("warning: foo", "warning:"));
    assert!(!contains_sub("warn: foo", "warning:"));
    assert!(starts_with_sub("help: x", "help:"));
    assert!(!starts_with_sub(" help: x", "help:"));
}

#[test]
fn str_eq_compares_contents() {
    assert!(str_eq("abc", "abc"));
    assert!(!str_eq("abc", "abd"));
    assert!(!str_eq("abc", "ab"));
}

#[test]
fn trim_removes_blanks_on_both_sides() {
    assert_eq!(trim_str("  hello \t\r\n"), "hello");
    assert_eq!(trim_str("\n\n"), "");
    assert_eq!(trim_str("x"), "x");
    assert_eq!(trim_str(""), "");
}

#[test]
fn split_lines_matches_line_semantics() {
    let lines = split_lines("a\nb\n");
    assert_eq!(lines, vec!["a".to_string(), "b".to_string()]);
    let lines2 = split_lines("a\n\nb");
    assert_eq!(lines2, vec!["a".to_string(), "".to_string(), "b".to_string()]);
    let lines3 = split_lines("");
    assert_eq!(lines3.len(), 0);
    let lines4 = split_lines("\n");
    assert_eq!(lines4, vec!["".to_string()]);
}

#[test]
fn parse_i32_accepts_what_std_accepts() {
    assert_eq!(parse_i32("0"), Some(0));
    assert_eq!(parse_i32("42"), Some(42));
    assert_eq!(parse_i32("+7"), Some(7));
    assert_eq!(parse_i32("-13"), Some(-13));
    assert_eq!(parse_i32("2147483647"), Some(2147483647));
    assert_eq!(parse_i32("-2147483648"), Some(-2147483648));
}

#[test]
fn parse_i32_rejects_what_std_rejects() {
    assert_eq!(parse_i32(""), None);
    assert_eq!(parse_i32("+"), None);
    assert_eq!(parse_i32("-"), None);
    assert_eq!(parse_i32("12x"), None);
    assert_eq!(parse_i32(" 5"), None);
    assert_eq!(parse_i32("2147483648"), None);
    assert_eq!(parse_i32("-2147483649"), None);
    assert_eq!(parse_i32("99999999999999999999"), None);
}
