//! The readable resources: the raw activity log and the usage summary,
//! each named by a fixed locator, and the dispatch from a locator to its
//! content.

use vstd::prelude::*;

use crate::summary::{generate_summary_of_read, spec_summary_of_read};
use crate::text::{is_blank, is_blank_exec, opt_view, str_eq};

verus! {

/// The error a request for an unknown locator fails with.
pub const UNKNOWN_RESOURCE_CODE: i64 = -32602;

/// A readable resource, as the catalogue announces it.
#[derive(Debug)]
pub struct ResourceInfo {
    pub uri: String,
    pub name: String,
    pub description: String,
    pub mime_type: String,
}

/// A failed resource request: a fixed error code and message.
#[derive(Debug)]
pub struct ResourceError {
    pub code: i64,
    pub message: String,
}

/// The two readable resources.
#[derive(PartialEq, Eq, Structural, Clone, Copy, Debug)]
pub enum ResourceKind {
    ActivityLog,
    UsageSummary,
}

/// The catalogue: the activity log and the usage summary, both plain
/// text.
pub fn list_resources() -> (r: Vec<ResourceInfo>)
    ensures
        r@.len() == 2,
        r@[0].uri@ == "lightbulb://log"@,
        r@[0].name@ == "Lightbulb Activity Log"@,
        r@[0].description@ == "Complete history of lightbulb on/off actions with timestamps"@,
        r@[0].mime_type@ == "text/plain"@,
        r@[1].uri@ == "lightbulb://summary"@,
        r@[1].name@ == "Lightbulb Usage Summary"@,
        r@[1].description@ == "Summary statistics of lightbulb usage patterns"@,
        r@[1].mime_type@ == "text/plain"@,
{
    let mut r: Vec<ResourceInfo> = Vec::new();
    r.push(
        ResourceInfo {
            uri: String::from_str("lightbulb://log"),
            name: String::from_str("Lightbulb Activity Log"),
            description: String::from_str(
                "Complete history of lightbulb on/off actions with timestamps",
            ),
            mime_type: String::from_str("text/plain"),
        },
    );
    r.push(
        ResourceInfo {
            uri: String::from_str("lightbulb://summary"),
            name: String::from_str("Lightbulb Usage Summary"),
            description: String::from_str("Summary statistics of lightbulb usage patterns"),
            mime_type: String::from_str("text/plain"),
        },
    );
    r
}

/// Which resource a locator names: the two known locators resolve, any
/// other fails with the fixed code and message, never with a success.
pub fn resolve_resource(uri: &str) -> (r: Result<ResourceKind, ResourceError>)
    ensures
        uri@ == "lightbulb://log"@ ==> (r matches Ok(k) && k == ResourceKind::ActivityLog),
        uri@ == "lightbulb://summary"@ ==> (r matches Ok(k) && k == ResourceKind::UsageSummary),
        uri@ != "lightbulb://log"@ && uri@ != "lightbulb://summary"@ ==> (r matches Err(e)
            && e.code == UNKNOWN_RESOURCE_CODE && e.message@ == "Unknown resource URI"@),
{
    proof {
        // The two locators differ, so at most one branch can match.
        reveal_strlit("lightbulb://log");
        reveal_strlit("lightbulb://summary");
        assert("lightbulb://log"@.len() == 15);
        assert("lightbulb://summary"@.len() == 19);
    }
    if str_eq(uri, "lightbulb://log") {
        Ok(ResourceKind::ActivityLog)
    } else if str_eq(uri, "lightbulb://summary") {
        Ok(ResourceKind::UsageSummary)
    } else {
        Err(
            ResourceError {
                code: UNKNOWN_RESOURCE_CODE,
                message: String::from_str("Unknown resource URI"),
            },
        )
    }
}

/// The content served for the raw-log resource, given the outcome of a
/// log read: a placeholder when the read failed or found only blank text,
/// the text under a fixed heading otherwise.
pub open spec fn spec_log_resource(content: Option<Seq<char>>) -> Seq<char> {
    match content {
        Some(c) => if is_blank(c) {
            "No lightbulb activity recorded yet."@
        } else {
            "Lightbulb Activity Log:\n\n"@ + c
        },
        None => "Lightbulb log file not found. No activity recorded yet."@,
    }
}

/// Render the raw-log resource.
pub fn render_log_resource(content: Option<&str>) -> (r: String)
    ensures
        r@ == spec_log_resource(opt_view(content)),
{
    match content {
        Some(c) => {
            if is_blank_exec(c) {
                String::from_str("No lightbulb activity recorded yet.")
            } else {
                let mut r = String::from_str("Lightbulb Activity Log:\n\n");
                r.append(c);
                r
            }
        },
        None => String::from_str("Lightbulb log file not found. No activity recorded yet."),
    }
}

/// Serve a resource-read request: the raw log or the summary for the two
/// known locators, the fixed error for any other. `log_content` is the
/// outcome of reading the log, `is_on` the current flag.
pub fn read_resource(uri: &str, log_content: Option<&str>, is_on: bool) -> (r: Result<
    String,
    ResourceError,
>)
    ensures
        uri@ == "lightbulb://log"@ ==> (r matches Ok(s) && s@ == spec_log_resource(
            opt_view(log_content),
        )),
        uri@ == "lightbulb://summary"@ ==> (r matches Ok(s) && s@ == spec_summary_of_read(
            opt_view(log_content),
            is_on,
        )),
        uri@ != "lightbulb://log"@ && uri@ != "lightbulb://summary"@ ==> (r matches Err(e)
            && e.code == UNKNOWN_RESOURCE_CODE && e.message@ == "Unknown resource URI"@),
{
    match resolve_resource(uri) {
        Ok(ResourceKind::ActivityLog) => Ok(render_log_resource(log_content)),
        Ok(ResourceKind::UsageSummary) => Ok(generate_summary_of_read(log_content, is_on)),
        Err(e) => Err(e),
    }
}

} // verus!
