use minigrep::matcher::{DefaultMatcher, MatchResult, Matcher, OnlyMatchingMatcher};
use regex::Regex;

#[test]
fn test_default_matcher() {
    let re = Regex::new("test").unwrap();
    let matcher = DefaultMatcher { re: &re, invert_match: false };
    let line = "this is a test line";
    if let Some(MatchResult::Line(content)) = matcher.find(line) {
        assert_eq!(content, "this is a test line");
    } else {
        panic!("Expected a match");
    }
    let line_no_match = "no match here";
    assert!(matcher.find(line_no_match).is_none());
}

#[test]
fn test_default_matcher_invert() {
    let re = Regex::new("test").unwrap();
    let matcher = DefaultMatcher { re: &re, invert_match: true };

    let line_no_match = "no match here";
    if let Some(MatchResult::Line(content)) = matcher.find(line_no_match) {
        assert_eq!(content, "no match here");
    } else {
        panic!("Expected a match");
    }

    let line = "this is a test line";
    assert!(matcher.find(line).is_none());
}

#[test]
fn test_only_matching_matcher() {
    let re = Regex::new(r"\d+").unwrap();
    let matcher = OnlyMatchingMatcher { re: &re };

    let line = "hello 123 world 456";
    if let Some(MatchResult::Content(matches)) = matcher.find(line) {
        assert_eq!(matches, vec!["123", "456"]);
    } else {
        panic!("Expected matches");
    }

    let line_no_match = "no numbers here";
    assert!(matcher.find(line_no_match).is_none());
}
