//! The command line of the engine.

use crate::commands;
use crate::commands::ChildState;
use crate::commands::CommandLine;
use crate::commands::CommandLineView;
use crate::commands::Poll;
use crate::managed::rule::Rule;
use crate::text;
use vstd::prelude::*;
use vstd::string::*;

verus! {

/// What the program is asked to do.
#[derive(Clone, Copy, Debug, PartialEq, Eq, Structural)]
pub enum Invocation {
    Install,
    Run,
    ShowRules,
    Status,
}

/// What the first argument of the program asks for. Without one the engine runs.
pub open spec fn invoked(arg: Option<Seq<char>>) -> Result<Invocation, Seq<char>> {
    match arg {
        None => Ok(Invocation::Run),
        Some(a) => if a == "install"@ {
            Ok(Invocation::Install)
        } else if a == "run"@ {
            Ok(Invocation::Run)
        } else if a == "show-rules"@ {
            Ok(Invocation::ShowRules)
        } else if a == "status"@ {
            Ok(Invocation::Status)
        } else {
            Err("Unknown command '"@ + a + "'. Use: install | run | show-rules | status"@)
        },
    }
}

/// What the first argument of the program asks for.
pub fn parse_invocation(arg: Option<&str>) -> (r: Result<Invocation, String>)
    ensures
        (match r {
            Ok(i) => Ok(i),
            Err(e) => Err(e@),
        }) == invoked(
            match arg {
                Some(a) => Some(a@),
                None => None,
            },
        ),
{
    let a = match arg {
        None => return Ok(Invocation::Run),
        Some(a) => a,
    };
    proof {
        reveal_strlit("install");
        reveal_strlit("run");
        reveal_strlit("show-rules");
        reveal_strlit("status");
    }
    if text::same_text(a, "install") {
        Ok(Invocation::Install)
    } else if text::same_text(a, "run") {
        Ok(Invocation::Run)
    } else if text::same_text(a, "show-rules") {
        Ok(Invocation::ShowRules)
    } else if text::same_text(a, "status") {
        Ok(Invocation::Status)
    } else {
        Err(
            "Unknown command '".to_owned().concat(a).concat(
                "'. Use: install | run | show-rules | status",
            ),
        )
    }
}

/// The line that shows a rule.
pub fn rule_line(rule: &Rule) -> (r: String)
    ensures
        r@ == rule.id@ + " | "@ + rule.name@ + " | "@ + rule.severity@ + " | "@ + (if rule.enabled {
            "true"@
        } else {
            "false"@
        }),
{
    let enabled = if rule.enabled {
        "true"
    } else {
        "false"
    };
    rule.id.clone().concat(" | ").concat(rule.name.as_str()).concat(" | ").concat(
        rule.severity.as_str(),
    ).concat(" | ").concat(enabled)
}

/// The command that shows the state of the service.
pub fn status_command(systemctl: &'static str) -> (r: CommandLine)
    ensures
        r@ == (CommandLineView {
            program: systemctl@,
            args: seq!["status"@, "aegira.service"@, "--no-pager"@],
        }),
{
    let args = vec!["status".to_owned(), "aegira.service".to_owned(), "--no-pager".to_owned()];
    assert(text::texts(args@) == seq!["status"@, "aegira.service"@, "--no-pager"@]);
    CommandLine { program: systemctl, args }
}

/// Decides what to do about a program that has been running for `running` nanoseconds.
pub fn run_command(program: &str, state: &ChildState, running: u128) -> (r: Poll)
    ensures
        r@ == commands::polled(program@, " exited with "@, *state, running),
{
    commands::poll(program, " exited with ", state, running)
}

/// Each of the four commands is known by its word, no word at all asks the engine to run, and any
/// other is refused with its name.
pub proof fn law_invocations(arg: Option<&str>, r: Result<Invocation, String>)
    requires
        call_ensures(parse_invocation, (arg,), r),
    ensures
        r == Ok::<Invocation, String>(Invocation::Run) <==> (arg is None || arg->0@ == "run"@),
        r == Ok::<Invocation, String>(Invocation::Install) <==> (arg is Some && arg->0@
            == "install"@),
        r == Ok::<Invocation, String>(Invocation::ShowRules) <==> (arg is Some && arg->0@
            == "show-rules"@),
        r == Ok::<Invocation, String>(Invocation::Status) <==> (arg is Some && arg->0@ == "status"@),
        r matches Err(e) ==> e@ == "Unknown command '"@ + arg->0@
            + "'. Use: install | run | show-rules | status"@,
{
    reveal_strlit("install");
    reveal_strlit("run");
    reveal_strlit("show-rules");
    reveal_strlit("status");
    assert("install"@.len() == 7 && "run"@.len() == 3 && "show-rules"@.len() == 10
        && "status"@.len() == 6);
}

/// A rule is shown by its id, its name, its severity and whether it is enabled.
pub proof fn law_rules_are_shown(rule: &Rule, r: String)
    requires
        call_ensures(rule_line, (rule,), r),
    ensures
        rule.enabled ==> r@ == rule.id@ + " | "@ + rule.name@ + " | "@ + rule.severity@
            + " | "@ + "true"@,
        !rule.enabled ==> r@ == rule.id@ + " | "@ + rule.name@ + " | "@ + rule.severity@
            + " | "@ + "false"@,
{
}

/// A program of the engine is watched with the words `exited with`.
pub proof fn law_commands_are_watched(program: &str, state: &ChildState, running: u128, r: Poll)
    requires
        call_ensures(run_command, (program, state, running), r),
    ensures
        r is Succeeded <==> (*state matches ChildState::Exited { success, status } && success),
        r is Wait <==> *state is Running && running < 20_000_000_000,
        r is Kill <==> *state is Running && running >= 20_000_000_000,
        r matches Poll::Failed(e) ==> (*state matches ChildState::Exited { success, status } ==> e@
            == program@ + " exited with "@ + status@),
{
}

/// The state of the service is asked of systemctl, without a pager.
pub proof fn law_state_is_asked_for(systemctl: &'static str, r: CommandLine)
    requires
        call_ensures(status_command, (systemctl,), r),
    ensures
        r.program@ == systemctl@,
        text::texts(r.args@) == seq!["status"@, "aegira.service"@, "--no-pager"@],
{
}

} // verus!
