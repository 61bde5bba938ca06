//! The commands that repair something, and those that check a repair.

use crate::commands;
use crate::commands::CommandLine;
use crate::commands::CommandLineView;
use crate::commands::CommandOutput;
use crate::commands::Installed;
use crate::managed::config;
use crate::managed::config::Config;
use crate::managed::rule::Remediation;
use crate::service;
use crate::text;
use crate::unicode;
use crate::verification;
use crate::verification::Check;
use crate::verification::CheckView;
use crate::verification::Verification;
use vstd::prelude::*;
use vstd::string::*;

verus! {

/// The texts of a planned remediation: a command, nothing to run, or a refusal.
pub open spec fn plan_texts(r: Result<Option<CommandLine>, String>) -> Result<
    Option<CommandLineView>,
    Seq<char>,
> {
    match r {
        Ok(Some(c)) => Ok(Some(c@)),
        Ok(None) => Ok(None),
        Err(e) => Err(e@),
    }
}

/// The command that restarts `target` with the program at `path`, or why there is none.
pub open spec fn restart_with(
    path: Result<Seq<char>, Seq<char>>,
    target: Seq<char>,
) -> Result<Option<CommandLineView>, Seq<char>> {
    match path {
        Ok(program) => Ok(
            Some(
                CommandLineView { program, args: seq!["restart"@, text::trimmed(target)] },
            ),
        ),
        Err(e) => Err(e),
    }
}

/// The command of a remediation. A service must have a name and must not be Aegira itself; a
/// container must have a name and is not restarted in the free mode.
pub open spec fn planned(r: Remediation, config: Config, installed: Installed) -> Result<
    Option<CommandLineView>,
    Seq<char>,
> {
    match r {
        Remediation::AlertOnly => Ok(None),
        Remediation::ServiceRestart { service } => {
            let target = config::target(service@, config);
            if text::blank(target) || service::self_service(target) {
                Err("Refusing invalid/self service target"@)
            } else {
                restart_with(commands::systemctl_path(installed), target)
            }
        },
        Remediation::ContainerRestart { container } => {
            let target = config::target(container@, config);
            if config::free(config.mode@) {
                Err("Container remediation unavailable in Free mode"@)
            } else if text::blank(target) {
                Err("Empty container target"@)
            } else {
                restart_with(commands::docker_path(installed), target)
            }
        },
    }
}

/// The command of a remediation, none where there is nothing to run, or why it is refused.
pub fn remediation(r: &Remediation, config: &Config, installed: &Installed) -> (plan: Result<
    Option<CommandLine>,
    String,
>)
    ensures
        plan_texts(plan) == planned(*r, *config, *installed),
{
    match r {
        Remediation::AlertOnly => Ok(None),
        Remediation::ServiceRestart { service } => {
            let target = config::replace_target(service.as_str(), config);
            if text::is_blank(target.as_str()) || service::is_self_service(target.as_str()) {
                return Err("Refusing invalid/self service target".to_owned());
            }
            match commands::systemctl(installed) {
                Ok(program) => Ok(
                    Some(commands::command(program, "restart", text::trim(target.as_str()))),
                ),
                Err(e) => Err(e),
            }
        },
        Remediation::ContainerRestart { container } => {
            if config::is_free(config.mode.as_str()) {
                return Err("Container remediation unavailable in Free mode".to_owned());
            }
            let target = config::replace_target(container.as_str(), config);
            if text::is_blank(target.as_str()) {
                return Err("Empty container target".to_owned());
            }
            match commands::docker(installed) {
                Ok(program) => Ok(
                    Some(commands::command(program, "restart", text::trim(target.as_str()))),
                ),
                Err(e) => Err(e),
            }
        },
    }
}

/// The program at `path`, or the usual place where it was not found.
pub open spec fn path_or(path: Result<Seq<char>, Seq<char>>, usual: Seq<char>) -> Seq<char> {
    match path {
        Ok(p) => p,
        Err(_) => usual,
    }
}

/// How a recovery is verified. In the free mode no container counts as running.
pub open spec fn check_for(v: Verification, config: Config, installed: Installed) -> CheckView {
    match v {
        Verification::Unchecked => CheckView::Known(true),
        Verification::ServiceActive { service } => CheckView::Query {
            command: verification::service_query(
                path_or(commands::systemctl_path(installed), commands::USR_BIN_SYSTEMCTL@),
                config::target(service@, config),
            ),
            expected: "active"@,
        },
        Verification::ContainerRunning { container } => if config::free(config.mode@) {
            CheckView::Known(false)
        } else {
            CheckView::Query {
                command: verification::container_query(
                    path_or(commands::docker_path(installed), commands::USR_BIN_DOCKER@),
                    config::target(container@, config),
                ),
                expected: "true"@,
            }
        },
    }
}

/// How a recovery is verified.
pub fn verify(v: &Verification, config: &Config, installed: &Installed) -> (r: Check)
    ensures
        r@ == check_for(*v, *config, *installed),
{
    match v {
        Verification::Unchecked => Check::Known(true),
        Verification::ServiceActive { service } => {
            let target = config::replace_target(service.as_str(), config);
            let program = match commands::systemctl(installed) {
                Ok(p) => p,
                Err(_) => commands::USR_BIN_SYSTEMCTL,
            };
            Check::Query {
                command: verification::query_service(program, target.as_str()),
                expected: "active",
            }
        },
        Verification::ContainerRunning { container } => {
            if config::is_free(config.mode.as_str()) {
                return Check::Known(false);
            }
            let target = config::replace_target(container.as_str(), config);
            let program = match commands::docker(installed) {
                Ok(p) => p,
                Err(_) => commands::USR_BIN_DOCKER,
            };
            Check::Query {
                command: verification::query_container(program, target.as_str()),
                expected: "true",
            }
        },
    }
}

/// The outcome of a query, given what the command left behind, or nothing where it did not run.
pub fn query_outcome(output: &Option<CommandOutput>, expected: &str) -> (r: bool)
    ensures
        r == match *output {
            Some(o) => commands::reported(o.success, unicode::lossy_text(o.stdout@), expected@),
            None => false,
        },
{
    match output {
        Some(o) => commands::output_says(o, expected),
        None => false,
    }
}

/// No remediation runs anything but a restart by systemctl or docker.
pub proof fn law_only_restarts_are_run(r: Remediation, config: Config, installed: Installed)
    ensures
        planned(r, config, installed) matches Ok(Some(c)) ==> commands::restarts_only(c),
{
    commands::law_found_programs_are_known(installed);
}

/// No verification runs anything but a query to systemctl or docker for the state of a service or
/// container.
pub proof fn law_only_queries_verify(v: Verification, config: Config, installed: Installed)
    ensures
        check_for(v, config, installed) matches CheckView::Query { command, expected }
            ==> verification::asks_only(command),
{
    commands::law_found_programs_are_known(installed);
}

/// In the free mode neither a remediation nor a verification runs docker.
pub proof fn law_free_mode_leaves_containers_alone(
    r: Remediation,
    v: Verification,
    config: Config,
    installed: Installed,
)
    requires
        config::free(config.mode@),
    ensures
        r is ContainerRestart ==> planned(r, config, installed) is Err,
        planned(r, config, installed) matches Ok(Some(c)) ==> commands::systemctl_place(c.program),
        v is ContainerRunning ==> check_for(v, config, installed) == CheckView::Known(false),
        check_for(v, config, installed) matches CheckView::Query { command, expected }
            ==> commands::systemctl_place(command.program),
{
    commands::law_found_programs_are_known(installed);
}

/// No remediation of a service restarts Aegira itself or a service without a name.
pub proof fn law_never_restarts_itself(r: Remediation, config: Config, installed: Installed)
    requires
        r is ServiceRestart,
    ensures
        planned(r, config, installed) matches Ok(Some(c)) ==> !service::self_service(c.args[1])
            && c.args[1].len() > 0,
{
    let target = config::target(r->service@, config);
    service::law_service_ignores_surrounding_space(target);
}

/// A restart acts on the service or container that the rule names, on the configured one only where
/// the rule holds its placeholder, and is made whenever it may be: it is refused only where the
/// service has no name or is Aegira itself, where the container has no name or the mode is `free`,
/// and where the program for it is missing.
pub proof fn law_restarts_act_on_what_is_named(
    r: &Remediation,
    config: &Config,
    installed: &Installed,
    plan: Result<Option<CommandLine>, String>,
)
    requires
        call_ensures(remediation, (r, config, installed), plan),
    ensures
        plan_texts(plan) == planned(*r, *config, *installed),
        *r is AlertOnly ==> (plan matches Ok(c) && c is None),
        ({
            let named = match *r {
                Remediation::ServiceRestart { service } => service@,
                Remediation::ContainerRestart { container } => container@,
                Remediation::AlertOnly => Seq::empty(),
            };
            let target = if named == "TARGET_SERVICE"@ {
                config.service@
            } else if named == "TARGET_CONTAINER"@ {
                match config.container {
                    Some(c) => c@,
                    None => Seq::empty(),
                }
            } else {
                named
            };
            let blank = text::trimmed(target).len() == 0;
            let own = service::normalized_service(target) == "aegira"@;
            let free = config.mode@ == "free"@;
            let systemctl = commands::systemctl_path(*installed);
            let docker = commands::docker_path(*installed);
            &&& *r is ServiceRestart && (blank || own) ==> (plan matches Err(e) && e@
                == "Refusing invalid/self service target"@)
            &&& *r is ServiceRestart && !blank && !own && systemctl is Err ==> (plan matches Err(e)
                && e@ == systemctl->Err_0)
            &&& *r is ServiceRestart && !blank && !own && systemctl is Ok ==> (plan matches Ok(
                Some(c),
            ) && c.program@ == systemctl->Ok_0 && c.args@.len() == 2 && c.args@[0]@ == "restart"@
                && c.args@[1]@ == text::trimmed(target))
            &&& *r is ContainerRestart && free ==> (plan matches Err(e) && e@
                == "Container remediation unavailable in Free mode"@)
            &&& *r is ContainerRestart && !free && blank ==> (plan matches Err(e) && e@
                == "Empty container target"@)
            &&& *r is ContainerRestart && !free && !blank && docker is Err ==> (plan matches Err(e)
                && e@ == docker->Err_0)
            &&& *r is ContainerRestart && !free && !blank && docker is Ok ==> (plan matches Ok(
                Some(c),
            ) && c.program@ == docker->Ok_0 && c.args@.len() == 2 && c.args@[0]@ == "restart"@
                && c.args@[1]@ == text::trimmed(target))
        }),
{
    reveal_strlit("");
    assert(""@ == Seq::<char>::empty());
    if let Ok(Some(c)) = plan {
        assert(text::texts(c.args@).len() == c.args@.len());
        assert(text::texts(c.args@)[0] == c.args@[0]@);
        assert(text::texts(c.args@)[1] == c.args@[1]@);
    }
}

/// A verification asks for the service or container that the rule names, and for the configured one
/// only where the rule holds its placeholder. Without a verification the recovery counts as done,
/// and in the mode `free` a container counts as not running.
pub proof fn law_verifications_ask_for_what_is_named(
    v: &Verification,
    config: &Config,
    installed: &Installed,
    r: Check,
)
    requires
        call_ensures(verify, (v, config, installed), r),
    ensures
        r@ == check_for(*v, *config, *installed),
        *v is Unchecked ==> r == Check::Known(true),
        *v is ContainerRunning && config.mode@ == "free"@ ==> r == Check::Known(false),
        ({
            let named = match *v {
                Verification::ServiceActive { service } => service@,
                Verification::ContainerRunning { container } => container@,
                Verification::Unchecked => Seq::empty(),
            };
            let target = if named == "TARGET_SERVICE"@ {
                config.service@
            } else if named == "TARGET_CONTAINER"@ {
                match config.container {
                    Some(c) => c@,
                    None => Seq::empty(),
                }
            } else {
                named
            };
            &&& *v is ServiceActive ==> (r matches Check::Query { command, expected } && expected@
                == "active"@ && command.program@ == match commands::systemctl_path(*installed) {
                Ok(p) => p,
                Err(_) => "/usr/bin/systemctl"@,
            } && command.args@.len() == 2 && command.args@[0]@ == "is-active"@ && command.args@[1]@
                == text::trimmed(target))
            &&& *v is ContainerRunning && config.mode@ != "free"@ ==> (r matches Check::Query {
                command,
                expected,
            } && expected@ == "true"@ && command.program@ == match commands::docker_path(
                *installed,
            ) {
                Ok(p) => p,
                Err(_) => "/usr/bin/docker"@,
            } && command.args@.len() == 4 && command.args@[0]@ == "inspect"@ && command.args@[1]@
                == "-f"@ && command.args@[2]@ == "{{.State.Running}}"@ && command.args@[3]@
                == text::trimmed(target))
        }),
{
    reveal_strlit("");
    assert(""@ == Seq::<char>::empty());
    if let Check::Query { command, expected } = r {
        let args = command.args@;
        assert(text::texts(args).len() == args.len());
        assert forall|i: int| 0 <= i < args.len() implies #[trigger] text::texts(args)[i]
            == args[i]@ by {}
        assert(text::texts(args)[0] == args[0]@ && text::texts(args)[1] == args[1]@);
        if args.len() == 4 {
            assert(text::texts(args)[2] == args[2]@ && text::texts(args)[3] == args[3]@);
        }
    }
}

/// A query has the expected outcome exactly when the command ran, ended well and printed the
/// expected word.
pub proof fn law_query_outcomes(output: &Option<CommandOutput>, expected: &str, r: bool)
    requires
        call_ensures(query_outcome, (output, expected), r),
    ensures
        r == (*output matches Some(o) && o.success && text::trimmed(
            unicode::lossy_text(o.stdout@),
        ) == expected@),
{
}

} // verus!
