//! Inspection and control of launchd-style background services.
//!
//! The library reconciles two sources of truth: service descriptor files
//! found in per-user and system-wide directories, and the live state that
//! the service daemon reports through its command-line interface. All
//! subprocess and filesystem work happens outside this crate; callers hand
//! in the raw outcomes (file bytes, listing text, exit status) and receive
//! the reconciled views, planned invocations and interpreted results.

use vstd::prelude::*;

pub mod aggregate;
pub mod byteseq;
pub mod domain;
pub mod lifecycle;
pub mod listing;
mod model;
pub mod plist_store;
pub mod scan;

pub use aggregate::get_launchd_service_info;
pub use aggregate::get_launchd_services;
pub use aggregate::with_daemon_state;
pub use aggregate::ProbeOutcome;
pub use domain::current_gui_domain;
pub use domain::format_gui_domain;
pub use domain::format_service_target;
pub use domain::print_query_invocation;
pub use lifecycle::launchctl_invocation;
pub use lifecycle::manage_launchd_service;
pub use lifecycle::LaunchctlOutcome;
pub use listing::get_service_pid;
pub use listing::parse_i32;
pub use model::LaunchdService;
pub use model::LaunchdServiceCommand;
pub use model::LaunchdServiceInfo;
pub use model::Scope;
pub use plist_store::get_label_from_plist;
pub use scan::get_launchagent_directories;
pub use scan::scan_directories;
pub use scan::scan_directory;
pub use scan::scope_from_path;
pub use scan::AgentDirectory;
pub use scan::ScanFile;
pub use scan::ScannedService;

verus! {

/// A daemon query for a label reports the service as loaded exactly when
/// the query itself succeeded; a query that could not be spawned or that
/// failed is uniformly read as "not loaded".
pub fn is_service_loaded(query: &Option<bool>) -> (loaded: bool)
    ensures
        loaded == (query == Some(true)),
{
    match query {
        Some(ok) => *ok,
        None => false,
    }
}

} // verus!
