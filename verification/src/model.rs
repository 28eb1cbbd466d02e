//! The data model: scopes, service views, and lifecycle actions.

use vstd::prelude::*;

verus! {

/// Where a descriptor comes from: the current user's agent directory or
/// the system-wide one.
#[derive(Clone, Copy, Debug, PartialEq, Eq, Structural)]
pub enum Scope {
    User,
    System,
}

impl Scope {
    /// The daemon's conventional lower-case name for the scope.
    pub fn name(&self) -> (r: String)
        ensures
            *self == Scope::User ==> r@ == "user"@,
            *self == Scope::System ==> r@ == "system"@,
    {
        match self {
            Scope::User => String::from_str("user"),
            Scope::System => String::from_str("system"),
        }
    }
}

/// One service as shown in the list view: identity plus live daemon state.
#[derive(Clone, Debug)]
pub struct LaunchdService {
    pub label: String,
    pub path: String,
    pub scope: Scope,
    pub loaded: bool,
    pub running: bool,
    pub pid: Option<i32>,
}

/// Ghost image of a `LaunchdService`, with strings as character sequences.
pub ghost struct ServiceImage {
    pub label: Seq<char>,
    pub path: Seq<char>,
    pub scope: Scope,
    pub loaded: bool,
    pub running: bool,
    pub pid: Option<i32>,
}

impl View for LaunchdService {
    type V = ServiceImage;

    open spec fn view(&self) -> ServiceImage {
        ServiceImage {
            label: self.label@,
            path: self.path@,
            scope: self.scope,
            loaded: self.loaded,
            running: self.running,
            pid: self.pid,
        }
    }
}

/// One service as shown in the detail view: the list fields plus every
/// recognized descriptor body field.
#[derive(Clone, Debug)]
pub struct LaunchdServiceInfo {
    pub label: String,
    pub path: String,
    pub scope: Scope,
    pub loaded: bool,
    pub running: bool,
    pub pid: Option<i32>,
    pub program: Option<String>,
    pub program_arguments: Option<Vec<String>>,
    pub run_at_load: Option<bool>,
    pub keep_alive: Option<bool>,
    pub working_directory: Option<String>,
    pub standard_out_path: Option<String>,
    pub standard_error_path: Option<String>,
}

/// Ghost image of a `LaunchdServiceInfo`.
pub ghost struct ServiceInfoImage {
    pub label: Seq<char>,
    pub path: Seq<char>,
    pub scope: Scope,
    pub loaded: bool,
    pub running: bool,
    pub pid: Option<i32>,
    pub program: Option<Seq<char>>,
    pub program_arguments: Option<Seq<Seq<char>>>,
    pub run_at_load: Option<bool>,
    pub keep_alive: Option<bool>,
    pub working_directory: Option<Seq<char>>,
    pub standard_out_path: Option<Seq<char>>,
    pub standard_error_path: Option<Seq<char>>,
}

impl View for LaunchdServiceInfo {
    type V = ServiceInfoImage;

    open spec fn view(&self) -> ServiceInfoImage {
        ServiceInfoImage {
            label: self.label@,
            path: self.path@,
            scope: self.scope,
            loaded: self.loaded,
            running: self.running,
            pid: self.pid,
            program: self.program.deep_view(),
            program_arguments: self.program_arguments.deep_view(),
            run_at_load: self.run_at_load,
            keep_alive: self.keep_alive,
            working_directory: self.working_directory.deep_view(),
            standard_out_path: self.standard_out_path.deep_view(),
            standard_error_path: self.standard_error_path.deep_view(),
        }
    }
}

/// The four one-shot lifecycle actions requested against the daemon.
#[derive(Clone, Copy, Debug, PartialEq, Eq, Structural)]
pub enum LaunchdServiceCommand {
    Load,
    Unload,
    Start,
    Stop,
}

} // verus!
