//! The commands that repair something, and those that check a repair.

use crate::commands;
use crate::commands::ChildState;
use crate::commands::CommandLine;
use crate::commands::CommandLineView;
use crate::commands::CommandOutput;
use crate::commands::Installed;
use crate::commands::Poll;
use crate::service;
use crate::standalone::rule;
use crate::standalone::rule::Remediation;
use crate::text;
use crate::unicode;
use crate::verification;
use crate::verification::Check;
use crate::verification::CheckView;
use crate::verification::Verification;
use vstd::prelude::*;
use vstd::string::*;

verus! {

/// The path of the systemctl program.
pub fn systemctl_binary(installed: &Installed) -> (r: Result<&'static str, String>)
    ensures
        commands::path_result(r) == commands::systemctl_path(*installed),
{
    commands::systemctl(installed)
}

/// The path of the docker program.
pub fn docker_binary(installed: &Installed) -> (r: Result<&'static str, String>)
    ensures
        commands::path_result(r) == commands::docker_path(*installed),
{
    commands::docker(installed)
}

/// A repair: a line to be logged and a command to be run after that.
#[derive(Debug)]
pub struct Repair {
    pub line: String,
    pub command: CommandLine,
}

/// The texts of a repair.
#[verifier::ext_equal]
pub struct RepairView {
    pub line: Seq<char>,
    pub command: CommandLineView,
}

/// The texts of a planned repair or of the reason why there is none.
pub open spec fn plan_texts(r: Result<Repair, String>) -> Result<RepairView, Seq<char>> {
    match r {
        Ok(x) => Ok(RepairView { line: x.line@, command: x.command@ }),
        Err(e) => Err(e@),
    }
}

/// The restart of `target` with the program at `path`, or why there is none.
pub open spec fn restart_with(
    path: Result<Seq<char>, Seq<char>>,
    line: Seq<char>,
    target: Seq<char>,
) -> Result<RepairView, Seq<char>> {
    match path {
        Ok(program) => Ok(
            RepairView {
                line: line + target,
                command: CommandLineView {
                    program,
                    args: seq!["restart"@, text::trimmed(target)],
                },
            },
        ),
        Err(e) => Err(e),
    }
}

/// The repair that a remediation asks for. Aegira itself is not restarted.
pub open spec fn planned(r: Remediation, installed: Installed) -> Result<RepairView, Seq<char>> {
    match r {
        Remediation::ServiceRestart { service } => if service::self_service(service@) {
            Err("Refusing remediation: rule attempts to restart Aegira itself"@)
        } else {
            restart_with(
                commands::systemctl_path(installed),
                "[RECOVERY] Restarting service: "@,
                service@,
            )
        },
        Remediation::ContainerRestart { container } => restart_with(
            commands::docker_path(installed),
            "[RECOVERY] Restarting container: "@,
            container@,
        ),
    }
}

/// The repair that a remediation asks for, or why it is refused.
pub fn perform_remediation(remediation: &Remediation, installed: &Installed) -> (r: Result<
    Repair,
    String,
>)
    ensures
        plan_texts(r) == planned(*remediation, *installed),
{
    match remediation {
        Remediation::ServiceRestart { service } => {
            if service::is_self_service(service.as_str()) {
                return Err(
                    "Refusing remediation: rule attempts to restart Aegira itself".to_owned(),
                );
            }
            match systemctl_binary(installed) {
                Ok(program) => Ok(
                    Repair {
                        line: "[RECOVERY] Restarting service: ".to_owned().concat(
                            service.as_str(),
                        ),
                        command: commands::command(
                            program,
                            "restart",
                            text::trim(service.as_str()),
                        ),
                    },
                ),
                Err(e) => Err(e),
            }
        },
        Remediation::ContainerRestart { container } => {
            match docker_binary(installed) {
                Ok(program) => Ok(
                    Repair {
                        line: "[RECOVERY] Restarting container: ".to_owned().concat(
                            container.as_str(),
                        ),
                        command: commands::command(
                            program,
                            "restart",
                            text::trim(container.as_str()),
                        ),
                    },
                ),
                Err(e) => Err(e),
            }
        },
    }
}

/// Decides what to do about a program that has been running for `running` nanoseconds.
pub fn execute_command(program: &str, state: &ChildState, running: u128) -> (r: Poll)
    ensures
        r@ == commands::polled(program@, " exited with status "@, *state, running),
{
    commands::poll(program, " exited with status ", state, running)
}

/// The line with which a verification starts. A check for which the program is missing starts
/// with the complaint about that.
pub open spec fn check_text(v: Verification, installed: Installed) -> Seq<char> {
    match v {
        Verification::Unchecked => "[VERIFY] No verification required"@,
        Verification::ServiceActive { service } => match commands::systemctl_path(installed) {
            Ok(_) => "[VERIFY] Checking service: "@ + service@,
            Err(e) => "[VERIFY ERROR] "@ + e,
        },
        Verification::ContainerRunning { container } => match commands::docker_path(installed) {
            Ok(_) => "[VERIFY] Checking container: "@ + container@,
            Err(e) => "[VERIFY ERROR] "@ + e,
        },
    }
}

/// How a recovery is verified. Without the program to ask, it counts as failed.
pub open spec fn check_for(v: Verification, installed: Installed) -> CheckView {
    match v {
        Verification::Unchecked => CheckView::Known(true),
        Verification::ServiceActive { service } => match commands::systemctl_path(installed) {
            Ok(program) => CheckView::Query {
                command: verification::service_query(program, service@),
                expected: "active"@,
            },
            Err(_) => CheckView::Known(false),
        },
        Verification::ContainerRunning { container } => match commands::docker_path(installed) {
            Ok(program) => CheckView::Query {
                command: verification::container_query(program, container@),
                expected: "true"@,
            },
            Err(_) => CheckView::Known(false),
        },
    }
}

/// How a recovery is verified, and the line with which that starts.
pub fn verify_recovery(v: &Verification, installed: &Installed) -> (r: (String, Check))
    ensures
        r.0@ == check_text(*v, *installed),
        r.1@ == check_for(*v, *installed),
{
    match v {
        Verification::Unchecked => (
            "[VERIFY] No verification required".to_owned(),
            Check::Known(true),
        ),
        Verification::ServiceActive { service } => match systemctl_binary(installed) {
            Ok(program) => (
                "[VERIFY] Checking service: ".to_owned().concat(service.as_str()),
                Check::Query {
                    command: verification::query_service(program, service.as_str()),
                    expected: "active",
                },
            ),
            Err(e) => ("[VERIFY ERROR] ".to_owned().concat(e.as_str()), Check::Known(false)),
        },
        Verification::ContainerRunning { container } => match docker_binary(installed) {
            Ok(program) => (
                "[VERIFY] Checking container: ".to_owned().concat(container.as_str()),
                Check::Query {
                    command: verification::query_container(program, container.as_str()),
                    expected: "true",
                },
            ),
            Err(e) => ("[VERIFY ERROR] ".to_owned().concat(e.as_str()), Check::Known(false)),
        },
    }
}

/// The line that tells the outcome of a query.
pub open spec fn outcome_text(v: Verification, ok: bool) -> Seq<char> {
    if v is ContainerRunning {
        if ok {
            "[VERIFY] Container is running"@
        } else {
            "[VERIFY] Container is NOT running"@
        }
    } else {
        if ok {
            "[VERIFY] Service is active"@
        } else {
            "[VERIFY] Service is NOT active"@
        }
    }
}

/// The outcome of the query for a verification, given what the command left behind or why it did
/// not run, and the line that tells it.
pub fn query_outcome(
    v: &Verification,
    expected: &str,
    output: &Result<CommandOutput, String>,
) -> (r: (bool, String))
    ensures
        match *output {
            Ok(o) => r.0 == commands::reported(
                o.success,
                unicode::lossy_text(o.stdout@),
                expected@,
            ) && r.1@ == outcome_text(*v, r.0),
            Err(e) => !r.0 && r.1@ == "[VERIFY ERROR] "@ + e@,
        },
{
    match output {
        Ok(o) => {
            let ok = commands::output_says(o, expected);
            let container = match v {
                Verification::ContainerRunning { container: _ } => true,
                _ => false,
            };
            let line = if container {
                if ok {
                    "[VERIFY] Container is running"
                } else {
                    "[VERIFY] Container is NOT running"
                }
            } else {
                if ok {
                    "[VERIFY] Service is active"
                } else {
                    "[VERIFY] Service is NOT active"
                }
            };
            (ok, line.to_owned())
        },
        Err(e) => (false, "[VERIFY ERROR] ".to_owned().concat(e.as_str())),
    }
}

/// No remediation runs anything but a restart by systemctl or docker.
pub proof fn law_only_restarts_are_run(r: Remediation, installed: Installed)
    ensures
        planned(r, installed) matches Ok(x) ==> commands::restarts_only(x.command),
{
    commands::law_found_programs_are_known(installed);
}

/// No verification runs anything but a query to systemctl or docker for the state of a service or
/// container.
pub proof fn law_only_queries_verify(v: Verification, installed: Installed)
    ensures
        check_for(v, installed) matches CheckView::Query { command, expected }
            ==> verification::asks_only(command),
{
    commands::law_found_programs_are_known(installed);
}

/// No remediation of a service restarts Aegira itself.
pub proof fn law_never_restarts_itself(r: Remediation, installed: Installed)
    requires
        r is ServiceRestart,
    ensures
        planned(r, installed) matches Ok(x) ==> !service::self_service(x.command.args[1]),
{
    service::law_service_ignores_surrounding_space(r->service@);
}

/// The remediation of a valid rule is refused only where the program for it is missing.
pub proof fn law_valid_rules_are_carried_out(rule: rule::Rule, installed: Installed)
    requires
        rule::fault(rule) is None,
    ensures
        planned(rule.remediation, installed) is Ok <==> match rule.remediation {
            Remediation::ServiceRestart { service } => commands::systemctl_path(installed) is Ok,
            Remediation::ContainerRestart { container } => commands::docker_path(
                installed,
            ) is Ok,
        },
        planned(rule.remediation, installed) matches Ok(x) ==> x.command.args[1].len() > 0,
{
}

/// A restart acts on the service or container that the rule names, and is made unless the service is
/// Aegira itself or the program for it is missing. It is announced with the name.
pub proof fn law_restarts_act_on_what_is_named(
    remediation: &Remediation,
    installed: &Installed,
    r: Result<Repair, String>,
)
    requires
        call_ensures(perform_remediation, (remediation, installed), r),
    ensures
        plan_texts(r) == planned(*remediation, *installed),
        *remediation matches Remediation::ServiceRestart { service } ==> {
            let own = service::normalized_service(service@) == "aegira"@;
            let path = commands::systemctl_path(*installed);
            &&& own ==> (r matches Err(e) && e@
                == "Refusing remediation: rule attempts to restart Aegira itself"@)
            &&& !own && path is Err ==> (r matches Err(e) && e@ == path->Err_0)
            &&& !own && path is Ok ==> (r matches Ok(x) && x.line@
                == "[RECOVERY] Restarting service: "@ + service@ && x.command.program@ == path->Ok_0
                && x.command.args@.len() == 2 && x.command.args@[0]@ == "restart"@
                && x.command.args@[1]@ == text::trimmed(service@))
        },
        *remediation matches Remediation::ContainerRestart { container } ==> {
            let path = commands::docker_path(*installed);
            &&& path is Err ==> (r matches Err(e) && e@ == path->Err_0)
            &&& path is Ok ==> (r matches Ok(x) && x.line@ == "[RECOVERY] Restarting container: "@
                + container@ && x.command.program@ == path->Ok_0 && x.command.args@.len() == 2
                && x.command.args@[0]@ == "restart"@ && x.command.args@[1]@ == text::trimmed(
                container@,
            ))
        },
{
    if let Ok(x) = r {
        let args = x.command.args@;
        assert(text::texts(args).len() == args.len());
        assert(text::texts(args)[0] == args[0]@ && text::texts(args)[1] == args[1]@);
    }
}

/// A verification asks for the service or container that the rule names. Without a verification the
/// recovery counts as done; without the program to ask, as failed.
pub proof fn law_verifications_ask_for_what_is_named(
    v: &Verification,
    installed: &Installed,
    r: (String, Check),
)
    requires
        call_ensures(verify_recovery, (v, installed), r),
    ensures
        r.1@ == check_for(*v, *installed),
        *v is Unchecked ==> r.1 == Check::Known(true) && r.0@
            == "[VERIFY] No verification required"@,
        *v matches Verification::ServiceActive { service } ==> match commands::systemctl_path(
            *installed,
        ) {
            Err(e) => r.1 == Check::Known(false) && r.0@ == "[VERIFY ERROR] "@ + e,
            Ok(p) => r.0@ == "[VERIFY] Checking service: "@ + service@ && (
            r.1 matches Check::Query { command, expected } && expected@ == "active"@
                && command.program@ == p && command.args@.len() == 2 && command.args@[0]@
                == "is-active"@ && command.args@[1]@ == text::trimmed(service@)),
        },
        *v matches Verification::ContainerRunning { container } ==> match commands::docker_path(
            *installed,
        ) {
            Err(e) => r.1 == Check::Known(false) && r.0@ == "[VERIFY ERROR] "@ + e,
            Ok(p) => r.0@ == "[VERIFY] Checking container: "@ + container@ && (
            r.1 matches Check::Query { command, expected } && expected@ == "true"@
                && command.program@ == p && command.args@.len() == 4 && command.args@[0]@
                == "inspect"@ && command.args@[1]@ == "-f"@ && command.args@[2]@
                == "{{.State.Running}}"@ && command.args@[3]@ == text::trimmed(container@)),
        },
{
    if let Check::Query { command, expected } = r.1 {
        let args = command.args@;
        assert(text::texts(args).len() == args.len());
        assert(text::texts(args)[0] == args[0]@ && text::texts(args)[1] == args[1]@);
        if args.len() == 4 {
            assert(text::texts(args)[2] == args[2]@ && text::texts(args)[3] == args[3]@);
        }
    }
}

/// A query has the expected outcome exactly when the command ran, ended well and printed the
/// expected word, and the outcome is told of a service or of a container.
pub proof fn law_query_outcomes(
    v: &Verification,
    expected: &str,
    output: &Result<CommandOutput, String>,
    r: (bool, String),
)
    requires
        call_ensures(query_outcome, (v, expected, output), r),
    ensures
        r.0 == (*output matches Ok(o) && o.success && text::trimmed(
            unicode::lossy_text(o.stdout@),
        ) == expected@),
        *output matches Err(e) ==> r.1@ == "[VERIFY ERROR] "@ + e@,
        output is Ok && *v is ContainerRunning && r.0 ==> r.1@ == "[VERIFY] Container is running"@,
        output is Ok && *v is ContainerRunning && !r.0 ==> r.1@
            == "[VERIFY] Container is NOT running"@,
        output is Ok && *v is ServiceActive && r.0 ==> r.1@ == "[VERIFY] Service is active"@,
        output is Ok && *v is ServiceActive && !r.0 ==> r.1@ == "[VERIFY] Service is NOT active"@,
{
}

/// A program of the engine is watched with the words `exited with status`.
pub proof fn law_commands_are_watched(program: &str, state: &ChildState, running: u128, r: Poll)
    requires
        call_ensures(execute_command, (program, state, running), r),
    ensures
        r is Succeeded <==> (*state matches ChildState::Exited { success, status } && success),
        r is Wait <==> *state is Running && running < 20_000_000_000,
        r is Kill <==> *state is Running && running >= 20_000_000_000,
        r matches Poll::Failed(e) ==> (*state matches ChildState::Exited { success, status } ==> e@
            == program@ + " exited with status "@ + status@),
{
}

/// The programs are looked for where they are for any engine.
pub proof fn law_programs_are_found(
    installed: &Installed,
    s: Result<&'static str, String>,
    d: Result<&'static str, String>,
)
    requires
        call_ensures(systemctl_binary, (installed,), s),
        call_ensures(docker_binary, (installed,), d),
    ensures
        s is Ok <==> installed.usr_bin_systemctl || installed.bin_systemctl,
        d is Ok <==> installed.usr_bin_docker || installed.bin_docker
            || installed.usr_local_bin_docker,
        s matches Ok(p) ==> p@ == (if installed.usr_bin_systemctl {
            "/usr/bin/systemctl"@
        } else {
            "/bin/systemctl"@
        }),
        d matches Ok(p) ==> p@ == (if installed.usr_bin_docker {
            "/usr/bin/docker"@
        } else if installed.bin_docker {
            "/bin/docker"@
        } else {
            "/usr/local/bin/docker"@
        }),
{
    reveal_with_fuel(commands::first_existing, 4);
    let sc = commands::systemctl_candidates(*installed);
    let dc = commands::docker_candidates(*installed);
    assert(sc.drop_first()[0] == sc[1]);
    assert(sc.drop_first().drop_first().len() == 0);
    assert(dc.drop_first()[0] == dc[1]);
    assert(dc.drop_first().drop_first()[0] == dc[2]);
    assert(dc.drop_first().drop_first().drop_first().len() == 0);
}

} // verus!
