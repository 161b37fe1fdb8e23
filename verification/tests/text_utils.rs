//! The small text utilities and the in-memory log store.

use lightbulb::log::MemoryLog;
use lightbulb::text::{contains_sub, split_nonblank_lines, str_eq, usize_to_string};

#[test]
fn test_contains_sub_cases() {
    assert!(contains_sub("Lightbulb turned ON", "turned ON"));
    assert!(!contains_sub("Lightbulb turned ON", "turned OFF"));
    assert!(contains_sub("abc", ""));
    assert!(!contains_sub("ab", "abc"));
    assert!(contains_sub("aaab", "aab"));
}

#[test]
fn test_str_eq_cases() {
    assert!(str_eq("lightbulb://log", "lightbulb://log"));
    assert!(!str_eq("lightbulb://log", "lightbulb://summary"));
    assert!(str_eq("", ""));
    assert!(!str_eq("a", ""));
}

#[test]
fn test_usize_to_string_cases() {
    assert_eq!(usize_to_string(0), "0");
    assert_eq!(usize_to_string(7), "7");
    assert_eq!(usize_to_string(10), "10");
    assert_eq!(usize_to_string(4003), "4003");
}

#[test]
fn test_split_nonblank_lines_cases() {
    let lines = split_nonblank_lines("a\n\n  \nb\nc");
    assert_eq!(lines, ["a", "b", "c"]);
    let lines = split_nonblank_lines("");
    assert!(lines.is_empty());
    let lines = split_nonblank_lines("only\n");
    assert_eq!(lines, ["only"]);
}

#[test]
fn test_split_nonblank_lines_crlf_and_unicode_blank() {
    // CRLF endings lose the carriage return, as str::lines drops it; a
    // lone trailing one ends no line and stays.
    let lines = split_nonblank_lines("a\r\nb\nc\r");
    assert_eq!(lines, ["a", "b", "c\r"]);
    // A line of Unicode whitespace is blank.
    let lines = split_nonblank_lines("a\n\u{000B}\u{2003}\nb");
    assert_eq!(lines, ["a", "b"]);
}

#[test]
fn test_memory_log_append_and_read() {
    let mut log = MemoryLog::new();
    assert_eq!(log.read_all(), "");

    assert!(log.log_event(true).is_ok());
    let first = log.read_all();
    assert!(first.starts_with('['));
    assert!(first.ends_with("] Lightbulb turned ON\n"));

    assert!(log.log_event(false).is_ok());
    let second = log.read_all();
    assert!(second.starts_with(&first));
    assert!(second.ends_with("] Lightbulb turned OFF\n"));
    assert_eq!(second.lines().count(), 2);
}
