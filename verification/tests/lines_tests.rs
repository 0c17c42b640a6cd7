use minigrep::contains_substring;
use minigrep::lines_of;

#[test]
fn lines_split_at_newlines() {
    assert_eq!(vec!["a", "b", "c"], lines_of("a\nb\nc"));
}

#[test]
fn trailing_newline_adds_no_empty_line() {
    assert_eq!(vec!["a", "b"], lines_of("a\nb\n"));
}

#[test]
fn empty_text_has_no_lines() {
    assert_eq!(Vec::<&str>::new(), lines_of(""));
}

#[test]
fn blank_lines_are_kept() {
    assert_eq!(vec!["a", "", "b"], lines_of("a\n\nb"));
}

#[test]
fn carriage_return_before_newline_is_dropped() {
    assert_eq!(vec!["a", "b"], lines_of("a\r\nb"));
}

#[test]
fn lone_trailing_carriage_return_is_kept() {
    assert_eq!(vec!["a\r"], lines_of("a\r"));
}

#[test]
fn containment_is_exact() {
    assert!(contains_substring("safe, fast, productive.", "duct"));
    assert!(!contains_substring("safe, fast, productive.", "Duct"));
    assert!(contains_substring("anything", ""));
    assert!(!contains_substring("", "a"));
    assert!(contains_substring("abc", "abc"));
    assert!(!contains_substring("ab", "abc"));
}
