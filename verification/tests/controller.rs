//! The controller: status reports, transitions and their log writes.

use lightbulb::light::Lightbulb;

#[test]
fn test_initial_lightbulb_state() {
    let service = Lightbulb::new();
    let status = service.get_status();
    assert_eq!(status, "The lightbulb is off");
}

#[test]
fn test_turn_on_lightbulb() {
    let mut service = Lightbulb::new();
    let result = service.turn_on();
    assert!(result.is_ok());
    assert_eq!(result.unwrap(), "Lightbulb turned on successfully");

    let status = service.get_status();
    assert_eq!(status, "The lightbulb is on");
}

#[test]
fn test_turn_off_lightbulb() {
    let mut service = Lightbulb::new();
    // First turn it on
    let _ = service.turn_on();

    let result = service.turn_off();
    assert!(result.is_ok());
    assert_eq!(result.unwrap(), "Lightbulb turned off successfully");

    let status = service.get_status();
    assert_eq!(status, "The lightbulb is off");
}

#[test]
fn test_turn_on_already_on() {
    let mut service = Lightbulb::new();
    let _ = service.turn_on();

    let result = service.turn_on();
    assert!(result.is_ok());
    assert_eq!(result.unwrap(), "The lightbulb is already on");
}

#[test]
fn test_turn_off_already_off() {
    let mut service = Lightbulb::new();

    let result = service.turn_off();
    assert!(result.is_ok());
    assert_eq!(result.unwrap(), "The lightbulb is already off");
}

#[test]
fn test_logging_behavior() {
    let mut service = Lightbulb::new();

    // Turn on the lightbulb
    let _ = service.turn_on();

    // Turn off the lightbulb
    let _ = service.turn_off();

    // Check that the log contains both actions
    let log_content = service.read_log();
    assert!(log_content.contains("turned ON"));
    assert!(log_content.contains("turned OFF"));
}

#[test]
fn test_turn_on_twice_appends_one_entry() {
    let mut service = Lightbulb::new();
    let first = service.turn_on();
    assert_eq!(first.unwrap(), "Lightbulb turned on successfully");
    let after_first = service.read_log();
    assert_eq!(after_first.lines().count(), 1);

    let second = service.turn_on();
    assert_eq!(second.unwrap(), "The lightbulb is already on");
    let after_second = service.read_log();
    assert_eq!(after_second, after_first);
}

#[test]
fn test_turn_off_twice_appends_one_entry() {
    let mut service = Lightbulb::new();
    let _ = service.turn_on();
    let baseline = service.read_log();

    let first = service.turn_off();
    assert_eq!(first.unwrap(), "Lightbulb turned off successfully");
    let after_first = service.read_log();
    assert_eq!(after_first.lines().count(), 2);
    assert!(after_first.starts_with(&baseline));

    let second = service.turn_off();
    assert_eq!(second.unwrap(), "The lightbulb is already off");
    assert_eq!(service.read_log(), after_first);
}

#[test]
fn test_log_order_on_then_off() {
    let mut service = Lightbulb::new();
    let _ = service.turn_on();
    let _ = service.turn_off();

    let log_content = service.read_log();
    let lines: Vec<&str> = log_content.lines().collect();
    assert_eq!(lines.len(), 2);
    assert!(lines[0].contains("turned ON"));
    assert!(!lines[0].contains("turned OFF"));
    assert!(lines[1].contains("turned OFF"));
    assert!(!lines[1].contains("turned ON"));
}

#[test]
fn test_timestamp_shape() {
    let mut service = Lightbulb::new();
    let _ = service.turn_on();

    let log_content = service.read_log();
    let line = log_content.lines().next().unwrap();
    assert!(line.starts_with('['));
    let close = line.find(']').unwrap();
    let ts = &line[1..close];
    assert!(!ts.is_empty());
    for c in ts.chars() {
        assert!(
            c.is_ascii_digit()
                || c == '-'
                || c == ':'
                || c == '.'
                || c == 'T'
                || c == '+'
                || c == 'Z'
        );
    }
    assert_eq!(&line[close..], "] Lightbulb turned ON");
}

#[test]
fn test_read_log_reproduces_lines_verbatim() {
    let mut service = Lightbulb::new();
    let _ = service.turn_on();
    let first = service.read_log();
    assert!(first.ends_with('\n'));

    let _ = service.turn_off();
    let second = service.read_log();
    // The earlier text is reproduced byte for byte; the new entry follows
    // it, with a single newline added.
    assert!(second.starts_with(&first));
    let added = &second[first.len()..];
    assert!(added.ends_with('\n'));
    assert_eq!(added.matches('\n').count(), 1);
}
