//! System services as the engine's collaborators report them. Control of
//! services (starting, stopping, querying an init system) is outside work
//! and lives with the embedding application; this module holds the data
//! model and the state-word interpretation.

use vstd::prelude::*;
use crate::text::{
    ends_with, join_spaces, join_with_spaces, split_whitespace_fields, split_ws, str_eq,
    str_ends_with, str_strip_suffix_runs, strip_suffix_runs, views_of,
};

verus! {

/// Coarse state of a system service. CPU usage, when known, is counted in
/// tenths of a percent.
#[derive(Debug)]
pub struct SystemService {
    pub name: String,
    pub description: String,
    pub state: ServiceState,
    pub enabled: bool,
    pub active_state: String,
    pub sub_state: String,
    pub memory_usage: Option<u64>,
    pub cpu_usage_tenths: Option<u32>,
    pub main_pid: Option<u32>,
}

/// Running state of a service.
#[derive(Debug, Clone, Copy, PartialEq, Eq, Structural)]
pub enum ServiceState {
    Running,
    Stopped,
    Failed,
    Unknown,
}

/// The state a reported active-state word maps to.
pub open spec fn spec_state_from(s: Seq<char>) -> ServiceState {
    if s == "active"@ || s == "running"@ {
        ServiceState::Running
    } else if s == "inactive"@ || s == "dead"@ {
        ServiceState::Stopped
    } else if s == "failed"@ {
        ServiceState::Failed
    } else {
        ServiceState::Unknown
    }
}

impl ServiceState {
    /// Interpret the active-state word a service manager reports.
    pub fn from_active_state(s: &str) -> (r: ServiceState)
        ensures
            r == spec_state_from(s@),
    {
        if str_eq(s, "active") || str_eq(s, "running") {
            ServiceState::Running
        } else if str_eq(s, "inactive") || str_eq(s, "dead") {
            ServiceState::Stopped
        } else if str_eq(s, "failed") {
            ServiceState::Failed
        } else {
            ServiceState::Unknown
        }
    }
}

/// One parsed line of a unit listing.
#[derive(Debug)]
pub struct ParsedServiceLine {
    pub name: String,
    pub active_state: String,
    pub sub_state: String,
    pub description: String,
}

/// What one line of a unit listing (UNIT LOAD ACTIVE SUB DESCRIPTION)
/// denotes: the unit name without its service suffix, the two state
/// words, and the remaining fields as the description. A line with fewer
/// than four fields, or whose unit is no service, denotes nothing.
pub open spec fn spec_service_line(line: Seq<char>) -> Option<
    (Seq<char>, Seq<char>, Seq<char>, Seq<char>),
> {
    let fs = split_ws(line);
    if fs.len() < 4 {
        None
    } else if !ends_with(fs[0], ".service"@) {
        None
    } else {
        Some(
            (
                strip_suffix_runs(fs[0], ".service"@),
                fs[2],
                fs[3],
                join_spaces(fs.skip(4)),
            ),
        )
    }
}

/// Parse one line of a unit listing, exactly as `spec_service_line` says.
pub fn parse_service_line(line: &str) -> (r: Option<ParsedServiceLine>)
    ensures
        match r {
            Some(p) => spec_service_line(line@) == Some(
                (p.name@, p.active_state@, p.sub_state@, p.description@),
            ),
            None => spec_service_line(line@) is None,
        },
{
    let fields = split_whitespace_fields(line);
    proof {
        assert(views_of(fields@).len() == fields@.len());
    }
    if fields.len() < 4 {
        return None;
    }
    if !str_ends_with(fields[0].as_str(), ".service") {
        return None;
    }
    let name = str_strip_suffix_runs(fields[0].as_str(), ".service");
    let description = join_with_spaces(&fields, 4);
    Some(
        ParsedServiceLine {
            name,
            active_state: fields[2].clone(),
            sub_state: fields[3].clone(),
            description,
        },
    )
}

/// Handle for service control; the control calls themselves shell out and
/// live with the embedding application.
pub struct ServiceManager {
}

impl ServiceManager {
    pub fn new() -> (r: Self) {
        Self {  }
    }
}

impl Default for ServiceManager {
    fn default() -> Self {
        Self::new()
    }
}

} // verus!
