use launchd_core::format_gui_domain;
use launchd_core::format_service_target;
use launchd_core::launchctl_invocation;
use launchd_core::manage_launchd_service;
use launchd_core::print_query_invocation;
use launchd_core::LaunchctlOutcome;
use launchd_core::LaunchdServiceCommand;
use launchd_core::Scope;

#[test]
fn domain_is_gui_slash_uid() {
    assert_eq!(format_gui_domain(501), "gui/501");
    assert_eq!(format_gui_domain(0), "gui/0");
    assert_eq!(format_gui_domain(4294967295), "gui/4294967295");
}

#[test]
fn target_is_domain_slash_label() {
    assert_eq!(
        format_service_target("gui/501", "com.example.foo"),
        "gui/501/com.example.foo"
    );
}

#[test]
fn print_query_names_the_target() {
    let args = print_query_invocation("gui/501", "com.example.foo");
    assert_eq!(args, vec!["print".to_string(), "gui/501/com.example.foo".to_string()]);
}

#[test]
fn each_action_plans_its_invocation() {
    let domain = "gui/501";
    let label = "com.example.foo";
    let path = "/Users/me/Library/LaunchAgents/com.example.foo.plist";
    assert_eq!(
        launchctl_invocation(&LaunchdServiceCommand::Load, domain, label, path),
        vec!["bootstrap".to_string(), domain.to_string(), path.to_string()]
    );
    assert_eq!(
        launchctl_invocation(&LaunchdServiceCommand::Unload, domain, label, path),
        vec!["bootout".to_string(), "gui/501/com.example.foo".to_string()]
    );
    assert_eq!(
        launchctl_invocation(&LaunchdServiceCommand::Start, domain, label, path),
        vec![
            "kickstart".to_string(),
            "-k".to_string(),
            "gui/501/com.example.foo".to_string()
        ]
    );
    assert_eq!(
        launchctl_invocation(&LaunchdServiceCommand::Stop, domain, label, path),
        vec![
            "kill".to_string(),
            "SIGTERM".to_string(),
            "gui/501/com.example.foo".to_string()
        ]
    );
}

#[test]
fn failed_stop_reports_raw_stderr() {
    // A stop whose daemon invocation exits non-zero fails with exactly
    // the diagnostic text the daemon wrote; nothing else changes.
    let outcome = LaunchctlOutcome::Completed {
        success: false,
        stderr: "No such process".to_string(),
    };
    let r = manage_launchd_service(&LaunchdServiceCommand::Stop, outcome);
    assert_eq!(r, Err("No such process".to_string()));
}

#[test]
fn successful_actions_report_their_messages() {
    let ok = |cmd: &LaunchdServiceCommand| {
        manage_launchd_service(
            cmd,
            LaunchctlOutcome::Completed { success: true, stderr: String::new() },
        )
    };
    assert_eq!(ok(&LaunchdServiceCommand::Load), Ok("Service load successfully".to_string()));
    assert_eq!(
        ok(&LaunchdServiceCommand::Unload),
        Ok("Service unloaded successfully".to_string())
    );
    assert_eq!(
        ok(&LaunchdServiceCommand::Start),
        Ok("Service started successfully".to_string())
    );
    assert_eq!(ok(&LaunchdServiceCommand::Stop), Ok("Service stopped successfully".to_string()));
}

#[test]
fn spawn_failure_is_named() {
    let outcome = LaunchctlOutcome::SpawnFailed { message: "launchctl missing".to_string() };
    let r = manage_launchd_service(&LaunchdServiceCommand::Start, outcome);
    assert_eq!(r, Err("Failed to execute command: launchctl missing".to_string()));
}

#[test]
fn scope_names_match_daemon_convention() {
    assert_eq!(Scope::User.name(), "user");
    assert_eq!(Scope::System.name(), "system");
}
