//! The resource catalogue and the dispatch of resource reads.

use lightbulb::resource::{
    list_resources, read_resource, resolve_resource, ResourceKind, UNKNOWN_RESOURCE_CODE,
};

#[test]
fn test_list_resources_catalogue() {
    let resources = list_resources();
    assert_eq!(resources.len(), 2);
    assert_eq!(resources[0].uri, "lightbulb://log");
    assert_eq!(resources[0].name, "Lightbulb Activity Log");
    assert_eq!(
        resources[0].description,
        "Complete history of lightbulb on/off actions with timestamps"
    );
    assert_eq!(resources[0].mime_type, "text/plain");
    assert_eq!(resources[1].uri, "lightbulb://summary");
    assert_eq!(resources[1].name, "Lightbulb Usage Summary");
    assert_eq!(resources[1].description, "Summary statistics of lightbulb usage patterns");
    assert_eq!(resources[1].mime_type, "text/plain");
}

#[test]
fn test_resolve_known_resources() {
    assert_eq!(resolve_resource("lightbulb://log").unwrap(), ResourceKind::ActivityLog);
    assert_eq!(resolve_resource("lightbulb://summary").unwrap(), ResourceKind::UsageSummary);
}

#[test]
fn test_unknown_resource_fails_with_fixed_code() {
    for uri in ["lightbulb://bogus", "", "lightbulb://logs", "file:///etc/passwd"] {
        let r = read_resource(uri, Some("x\n"), false);
        assert!(r.is_err());
        let e = r.err().unwrap();
        assert_eq!(e.code, UNKNOWN_RESOURCE_CODE);
        assert_eq!(e.code, -32602);
        assert_eq!(e.message, "Unknown resource URI");
    }
}

#[test]
fn test_read_log_resource() {
    let content = "[2024-01-01T00:00:00+00:00] Lightbulb turned ON\n";
    let r = read_resource("lightbulb://log", Some(content), true).unwrap();
    assert_eq!(
        r,
        "Lightbulb Activity Log:\n\n[2024-01-01T00:00:00+00:00] Lightbulb turned ON\n"
    );

    // Blank content and failed reads both give placeholders; blank means
    // any text that trims to nothing, Unicode whitespace included.
    let r = read_resource("lightbulb://log", Some("  \n"), true).unwrap();
    assert_eq!(r, "No lightbulb activity recorded yet.");
    let r = read_resource("lightbulb://log", Some("\u{000B}"), true).unwrap();
    assert_eq!(r, "No lightbulb activity recorded yet.");
    let r = read_resource("lightbulb://log", None, true).unwrap();
    assert_eq!(r, "Lightbulb log file not found. No activity recorded yet.");
}

#[test]
fn test_read_summary_resource() {
    let content = "[2024-01-01T00:00:00+00:00] Lightbulb turned ON\n";
    let r = read_resource("lightbulb://summary", Some(content), true).unwrap();
    assert!(r.contains("Total Actions: 1"));
    assert!(r.contains("- Turn ON actions: 1 (100.0%)"));
    assert!(r.contains("- Turn OFF actions: 0 (0.0%)"));

    let r = read_resource("lightbulb://summary", None, false).unwrap();
    assert_eq!(r, "Lightbulb Usage Summary:\n\nLog file not found. No activity recorded yet.");
}
