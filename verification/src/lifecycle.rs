//! The lifecycle controller: which daemon invocation a requested action
//! becomes, and how the invocation's outcome is reported.

use crate::domain::spec_service_target;
use crate::domain::format_service_target;
use crate::model::LaunchdServiceCommand;
use vstd::prelude::*;
use vstd::string::StringExecFns;

verus! {

/// How a daemon invocation ended: it ran to completion with an exit
/// status and captured error stream, or it could not be spawned at all.
pub enum LaunchctlOutcome {
    Completed { success: bool, stderr: String },
    SpawnFailed { message: String },
}

/// The argument list of the daemon invocation for one action: bootstrap
/// the descriptor path into the domain, boot the target out, kickstart
/// it forcibly, or send it a termination signal.
pub open spec fn spec_invocation(
    cmd: LaunchdServiceCommand,
    domain: Seq<char>,
    label: Seq<char>,
    path: Seq<char>,
) -> Seq<Seq<char>> {
    match cmd {
        LaunchdServiceCommand::Load => seq!["bootstrap"@, domain, path],
        LaunchdServiceCommand::Unload => seq!["bootout"@, spec_service_target(domain, label)],
        LaunchdServiceCommand::Start => seq![
            "kickstart"@,
            "-k"@,
            spec_service_target(domain, label),
        ],
        LaunchdServiceCommand::Stop => seq![
            "kill"@,
            "SIGTERM"@,
            spec_service_target(domain, label),
        ],
    }
}

/// Plan the daemon invocation for one lifecycle action.
pub fn launchctl_invocation(
    command: &LaunchdServiceCommand,
    domain: &str,
    label: &str,
    path: &str,
) -> (r: Vec<String>)
    ensures
        r.deep_view() == spec_invocation(*command, domain@, label@, path@),
{
    let mut args: Vec<String> = Vec::new();
    match command {
        LaunchdServiceCommand::Load => {
            args.push(String::from_str("bootstrap"));
            args.push(String::from_str(domain));
            args.push(String::from_str(path));
        },
        LaunchdServiceCommand::Unload => {
            args.push(String::from_str("bootout"));
            args.push(format_service_target(domain, label));
        },
        LaunchdServiceCommand::Start => {
            args.push(String::from_str("kickstart"));
            args.push(String::from_str("-k"));
            args.push(format_service_target(domain, label));
        },
        LaunchdServiceCommand::Stop => {
            args.push(String::from_str("kill"));
            args.push(String::from_str("SIGTERM"));
            args.push(format_service_target(domain, label));
        },
    }
    proof {
        assert(args.deep_view() =~= spec_invocation(*command, domain@, label@, path@));
    }
    args
}

/// The message reported when an action's invocation exits successfully.
pub open spec fn spec_success_message(cmd: LaunchdServiceCommand) -> Seq<char> {
    match cmd {
        LaunchdServiceCommand::Load => "Service load successfully"@,
        LaunchdServiceCommand::Unload => "Service unloaded successfully"@,
        LaunchdServiceCommand::Start => "Service started successfully"@,
        LaunchdServiceCommand::Stop => "Service stopped successfully"@,
    }
}

fn success_message(command: &LaunchdServiceCommand) -> (r: String)
    ensures
        r@ == spec_success_message(*command),
{
    match command {
        LaunchdServiceCommand::Load => String::from_str("Service load successfully"),
        LaunchdServiceCommand::Unload => String::from_str("Service unloaded successfully"),
        LaunchdServiceCommand::Start => String::from_str("Service started successfully"),
        LaunchdServiceCommand::Stop => String::from_str("Service stopped successfully"),
    }
}

/// Interpret one daemon invocation for one action: a zero exit becomes
/// the per-action success message, a non-zero exit fails with the raw
/// error stream, and an invocation that never spawned fails with a
/// message naming the spawn error. Exactly one invocation, no retry.
pub fn manage_launchd_service(command: &LaunchdServiceCommand, outcome: LaunchctlOutcome) -> (r:
    Result<String, String>)
    ensures
        outcome matches LaunchctlOutcome::Completed { success, stderr } ==> ((success ==> (r
            matches Ok(m) && m@ == spec_success_message(*command))) && (!success ==> (r matches Err(
            e,
        ) && e@ == stderr@))),
        outcome matches LaunchctlOutcome::SpawnFailed { message } ==> (r matches Err(e) && e@
            == "Failed to execute command: "@ + message@),
        r is Ok <==> (outcome matches LaunchctlOutcome::Completed { success, .. } && success),
{
    match outcome {
        LaunchctlOutcome::Completed { success, stderr } => {
            if success {
                Ok(success_message(command))
            } else {
                Err(stderr)
            }
        },
        LaunchctlOutcome::SpawnFailed { message } => {
            let mut e = String::from_str("Failed to execute command: ");
            e.append(message.as_str());
            Err(e)
        },
    }
}

} // verus!
