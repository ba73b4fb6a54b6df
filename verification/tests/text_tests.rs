use git_pull_requests::num::{parse_u32_digits, u32_to_string};
use git_pull_requests::text::{join_tail, split_message_lines, str_eq, trim_str};

#[test]
fn split_empty_text_has_no_lines() {
    let v = split_message_lines("");
    assert!(v.is_empty());
}

#[test]
fn split_keeps_lines_in_order() {
    let v = split_message_lines("a\nb\nc");
    assert_eq!(v, vec!["a".to_string(), "b".to_string(), "c".to_string()]);
}

#[test]
fn split_drops_a_final_terminator() {
    let v = split_message_lines("a\n");
    assert_eq!(v, vec!["a".to_string()]);
}

#[test]
fn split_keeps_inner_empty_lines() {
    let v = split_message_lines("a\n\nb");
    assert_eq!(v, vec!["a".to_string(), "".to_string(), "b".to_string()]);
}

#[test]
fn split_strips_carriage_returns_before_newlines() {
    let v = split_message_lines("a\r\nb\r");
    assert_eq!(v, vec!["a".to_string(), "b\r".to_string()]);
}

#[test]
fn join_tail_skips_the_first_line() {
    let v = vec!["h".to_string(), "a".to_string(), "b".to_string()];
    assert_eq!(join_tail(&v), "a\nb");
}

#[test]
fn join_tail_of_a_single_line_is_empty() {
    let v = vec!["h".to_string()];
    assert_eq!(join_tail(&v), "");
}

#[test]
fn trim_removes_whitespace_at_both_ends() {
    assert_eq!(trim_str("  a b \n"), "a b");
    assert_eq!(trim_str("\t\r\n "), "");
    assert_eq!(trim_str("x"), "x");
}

#[test]
fn str_eq_compares_by_characters() {
    assert!(str_eq("abc", "abc"));
    assert!(!str_eq("abc", "abd"));
    assert!(!str_eq("abc", "ab"));
    assert!(str_eq("", ""));
}

#[test]
fn digits_parse_and_render_round_trip() {
    assert_eq!(parse_u32_digits("0"), Some(0));
    assert_eq!(parse_u32_digits("42"), Some(42));
    assert_eq!(parse_u32_digits("4294967295"), Some(u32::MAX));
    assert_eq!(parse_u32_digits("4294967296"), None);
    assert_eq!(parse_u32_digits("99999999999999999999"), None);
    assert_eq!(u32_to_string(0), "0");
    assert_eq!(u32_to_string(42), "42");
    assert_eq!(u32_to_string(u32::MAX), "4294967295");
}
