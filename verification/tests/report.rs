//! The usage summary: placeholders, counts, percentages and the
//! recent-activity tail.

use lightbulb::light::Lightbulb;
use lightbulb::log::format_log_line;
use lightbulb::summary::{extract_timestamp, generate_summary, generate_summary_of_read};

#[test]
fn test_summary_of_fresh_controller() {
    let service = Lightbulb::new();
    let summary = service.usage_summary();
    assert_eq!(summary, "Lightbulb Usage Summary:\n\nNo activity recorded yet.");
}

#[test]
fn test_summary_of_empty_text() {
    assert_eq!(
        generate_summary("", false),
        "Lightbulb Usage Summary:\n\nNo activity recorded yet."
    );
    assert_eq!(
        generate_summary("   \n \t \n", true),
        "Lightbulb Usage Summary:\n\nNo activity recorded yet."
    );
}

#[test]
fn test_summary_blank_unicode_whitespace() {
    // Whitespace beyond space, tab and CR: vertical tab, form feed,
    // no-break space, em space. All of it trims to nothing.
    assert_eq!(
        generate_summary("\u{000B}\n\u{000C} \u{00A0}\u{2003}\n", false),
        "Lightbulb Usage Summary:\n\nNo activity recorded yet."
    );
    // A line of such whitespace between real entries is not an action.
    let content = "[t1] Lightbulb turned ON\n\u{000B}\u{000C}\n[t2] Lightbulb turned OFF\n";
    let summary = generate_summary(content, false);
    assert!(summary.contains("Total Actions: 2"));
}

#[test]
fn test_summary_crlf_line_endings() {
    let content = "[t1] Lightbulb turned ON\r\n[t2] Lightbulb turned OFF\r\n";
    let summary = generate_summary(content, false);
    assert!(summary.contains("Total Actions: 2"));
    assert!(summary.contains("- Last action: t2"));
    // The carriage returns end lines; they are no part of any shown line.
    assert!(!summary.contains('\r'));
}

#[test]
fn test_summary_of_failed_read() {
    assert_eq!(
        generate_summary_of_read(None, false),
        "Lightbulb Usage Summary:\n\nLog file not found. No activity recorded yet."
    );
}

#[test]
fn test_summary_counts_and_percentages() {
    let content = "[2024-01-01T00:00:00+00:00] Lightbulb turned ON\n\
                   [2024-01-01T00:01:00+00:00] Lightbulb turned OFF\n\
                   [2024-01-01T00:02:00+00:00] Lightbulb turned OFF\n";
    let expected = "Lightbulb Usage Summary:\n\n\
                    Current Status: OFF\n\
                    Total Actions: 3\n\
                    - Turn ON actions: 1 (33.3%)\n\
                    - Turn OFF actions: 2 (66.7%)\n\n\
                    Activity Period:\n\
                    - First action: 2024-01-01T00:00:00+00:00\n\
                    - Last action: 2024-01-01T00:02:00+00:00\n\n\
                    Recent Activity (last 5 actions):\n\
                    \x20 [2024-01-01T00:00:00+00:00] Lightbulb turned ON\n\
                    \x20 [2024-01-01T00:01:00+00:00] Lightbulb turned OFF\n\
                    \x20 [2024-01-01T00:02:00+00:00] Lightbulb turned OFF";
    assert_eq!(generate_summary(content, false), expected);
}

#[test]
fn test_summary_even_split() {
    let content = "[2024-02-02T10:00:00+00:00] Lightbulb turned ON\n\
                   [2024-02-02T11:00:00+00:00] Lightbulb turned OFF\n";
    let summary = generate_summary(content, true);
    assert!(summary.contains("Current Status: ON"));
    assert!(summary.contains("Total Actions: 2"));
    assert!(summary.contains("- Turn ON actions: 1 (50.0%)"));
    assert!(summary.contains("- Turn OFF actions: 1 (50.0%)"));
}

#[test]
fn test_summary_recent_activity_shows_last_five() {
    let mut content = String::new();
    for i in 0..7 {
        content.push_str(&format!(
            "[2024-03-03T00:00:0{}+00:00] Lightbulb turned {}\n",
            i,
            if i % 2 == 0 { "ON" } else { "OFF" }
        ));
    }
    let summary = generate_summary(&content, true);
    assert!(summary.contains("Total Actions: 7"));
    // 4 of 7 -> 57.1%, 3 of 7 -> 42.9%
    assert!(summary.contains("- Turn ON actions: 4 (57.1%)"));
    assert!(summary.contains("- Turn OFF actions: 3 (42.9%)"));
    assert!(summary.contains("- First action: 2024-03-03T00:00:00+00:00"));
    assert!(summary.contains("- Last action: 2024-03-03T00:00:06+00:00"));

    let recent = summary.split("Recent Activity (last 5 actions):\n").nth(1).unwrap();
    let shown: Vec<&str> = recent.lines().collect();
    assert_eq!(shown.len(), 5);
    // The true tail, oldest first: entries 2 through 6.
    for (k, line) in shown.iter().enumerate() {
        let i = k + 2;
        let expected = format!(
            "  [2024-03-03T00:00:0{}+00:00] Lightbulb turned {}",
            i,
            if i % 2 == 0 { "ON" } else { "OFF" }
        );
        assert_eq!(*line, &expected);
    }
}

#[test]
fn test_summary_through_controller_counts() {
    let mut service = Lightbulb::new();
    let _ = service.turn_on();
    let _ = service.turn_off();
    let _ = service.turn_on();

    let summary = service.usage_summary();
    assert!(summary.contains("Current Status: ON"));
    assert!(summary.contains("Total Actions: 3"));
    assert!(summary.contains("- Turn ON actions: 2 (66.7%)"));
    assert!(summary.contains("- Turn OFF actions: 1 (33.3%)"));
}

#[test]
fn test_format_log_line_exact() {
    let line = format_log_line("1996-12-19T16:39:57-08:00", true);
    assert_eq!(line, "[1996-12-19T16:39:57-08:00] Lightbulb turned ON");
    let line = format_log_line("1996-12-19T16:39:57-08:00", false);
    assert_eq!(line, "[1996-12-19T16:39:57-08:00] Lightbulb turned OFF");
}

#[test]
fn test_extract_timestamp_cases() {
    assert_eq!(
        extract_timestamp("[2024-01-01T00:00:00+00:00] Lightbulb turned ON"),
        "2024-01-01T00:00:00+00:00"
    );
    // No closing bracket: the timestamp is empty rather than an error.
    assert_eq!(extract_timestamp("malformed line"), "");
    // No leading bracket: the text before the first `]` is kept as is.
    assert_eq!(extract_timestamp("abc] rest"), "abc");
}
