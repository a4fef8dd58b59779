use netscan::lines::{split_lines, tokenize};
use netscan::text::{contains_sub, starts_with_str};

#[test]
fn substring_search_finds_and_misses() {
    assert!(contains_sub("HTTP/1.1 207 Multi-Status", "207"));
    assert!(!contains_sub("HTTP/1.1 500", "207"));
    assert!(contains_sub("abc", ""));
    assert!(!contains_sub("ab", "abc"));
}

#[test]
fn prefix_test_matches_only_at_the_front() {
    assert!(starts_with_str("220 Welcome", "220"));
    assert!(!starts_with_str("i220", "220"));
    assert!(starts_with_str("x", ""));
    assert!(!starts_with_str("", "x"));
}

#[test]
fn lines_split_on_line_feeds() {
    let ls = split_lines("a\nbb\nccc");
    let ls: Vec<&str> = ls.iter().map(|s| s.as_str()).collect();
    assert_eq!(ls, vec!["a", "bb", "ccc"]);
}

#[test]
fn trailing_line_feed_yields_a_final_empty_line() {
    let ls = split_lines("a\n");
    let ls: Vec<&str> = ls.iter().map(|s| s.as_str()).collect();
    assert_eq!(ls, vec!["a", ""]);
}

#[test]
fn text_without_line_feed_is_one_line() {
    let ls = split_lines("just one");
    assert_eq!(ls.len(), 1);
    assert_eq!(ls[0].as_str(), "just one");
}

#[test]
fn fields_split_on_runs_of_whitespace() {
    let ts = tokenize("  a \t bb\r  ccc ");
    let ts: Vec<&str> = ts.iter().map(|s| s.as_str()).collect();
    assert_eq!(ts, vec!["a", "bb", "ccc"]);
}

#[test]
fn empty_line_has_no_fields() {
    assert!(tokenize("").is_empty());
    assert!(tokenize(" \t ").is_empty());
}
