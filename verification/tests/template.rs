use vx::error::ErrorKind;
use vx::source::plan::{parse_template_version_revision_str, unquote};

fn parsed(text: &str) -> (String, String) {
    parse_template_version_revision_str(text).unwrap()
}

#[test]
fn version_and_revision_are_read() {
    assert_eq!(parsed("version=1.2\nrevision=3"), ("1.2".to_string(), "3".to_string()));
}

#[test]
fn quoted_version_without_revision_defaults_to_one() {
    assert_eq!(parsed("version=\"1.2\""), ("1.2".to_string(), "1".to_string()));
}

#[test]
fn text_without_version_fails() {
    let err = parse_template_version_revision_str("pkgname=foo\nrevision=2\n").unwrap_err();
    assert_eq!(err.kind, ErrorKind::Parse);
    assert_eq!(err.message, "template missing version=");
    assert_eq!(err.to_string(), "template missing version=");
    assert!(parse_template_version_revision_str("").is_err());
}

#[test]
fn comments_and_blank_lines_are_passed_over() {
    let text = "# Template file for 'foo'\n\n  # version=9\npkgname=foo\n  version='2.0'  \nrevision=\"4\"\n";
    assert_eq!(parsed(text), ("2.0".to_string(), "4".to_string()));
}

#[test]
fn reading_stops_once_both_are_known() {
    let text = "version=1\nrevision=2\nversion=3\nrevision=4\n";
    assert_eq!(parsed(text), ("1".to_string(), "2".to_string()));
}

#[test]
fn later_assignment_wins_until_both_are_known() {
    let text = "version=1\nversion=2\nrevision=5\nversion=3\n";
    assert_eq!(parsed(text), ("2".to_string(), "5".to_string()));
    let text = "revision=7\nrevision=8\nversion=1\n";
    assert_eq!(parsed(text), ("1".to_string(), "8".to_string()));
}

#[test]
fn assignment_must_start_the_line() {
    assert!(parse_template_version_revision_str("_version=1\n").is_err());
    assert_eq!(parsed("version = 1\nversion=2"), ("2".to_string(), "1".to_string()));
}

#[test]
fn unquote_strips_one_pair_of_quotes() {
    assert_eq!(unquote("\"1.2\""), "1.2");
    assert_eq!(unquote("'1.2'"), "1.2");
    assert_eq!(unquote("  \"1.2\"  "), "1.2");
    assert_eq!(unquote("1.2"), "1.2");
    assert_eq!(unquote("\"1.2'"), "\"1.2'");
    assert_eq!(unquote("\"\""), "");
    assert_eq!(unquote("\""), "\"");
    assert_eq!(unquote("'"), "'");
    assert_eq!(unquote(""), "");
    assert_eq!(unquote("\"\"a\"\""), "\"a\"");
}
