//! How a recovery is verified.

use crate::commands;
use crate::commands::CommandLine;
use crate::commands::CommandLineView;
use crate::text;
use vstd::prelude::*;

verus! {

/// How to find out whether a recovery has worked.
#[derive(Clone, Debug)]
pub enum Verification {
    /// The service must be active.
    ServiceActive { service: String },
    /// The container must be running.
    ContainerRunning { container: String },
    /// Nothing is checked.
    Unchecked,
}

/// How a verification goes on.
#[derive(Debug)]
pub enum Check {
    /// The outcome is known.
    Known(bool),
    /// The outcome is that the command succeeds and prints `expected`.
    Query { command: CommandLine, expected: &'static str },
}

/// The texts of a check.
pub enum CheckView {
    Known(bool),
    Query { command: CommandLineView, expected: Seq<char> },
}

impl View for Check {
    type V = CheckView;

    open spec fn view(&self) -> CheckView {
        match *self {
            Check::Known(b) => CheckView::Known(b),
            Check::Query { command, expected } => CheckView::Query {
                command: command@,
                expected: expected@,
            },
        }
    }
}

/// What `docker inspect` is asked to print.
pub const RUNNING_FORMAT: &'static str = "{{.State.Running}}";

/// The command that asks systemd whether a service is active.
pub open spec fn service_query(systemctl: Seq<char>, target: Seq<char>) -> CommandLineView {
    CommandLineView { program: systemctl, args: seq!["is-active"@, text::trimmed(target)] }
}

/// The command that asks docker whether a container is running.
pub open spec fn container_query(docker: Seq<char>, target: Seq<char>) -> CommandLineView {
    CommandLineView {
        program: docker,
        args: seq!["inspect"@, "-f"@, RUNNING_FORMAT@, text::trimmed(target)],
    }
}

/// Whether a command does nothing but ask for the state of one service or container.
pub open spec fn asks_only(c: CommandLineView) -> bool {
    ||| commands::systemctl_place(c.program) && c.args.len() == 2 && c.args[0] == "is-active"@
    ||| commands::docker_place(c.program) && c.args.len() == 4 && c.args[0] == "inspect"@
        && c.args[1] == "-f"@ && c.args[2] == RUNNING_FORMAT@
}

/// The command that asks systemd whether a service is active.
pub fn query_service(systemctl: &'static str, target: &str) -> (r: CommandLine)
    ensures
        r@ == service_query(systemctl@, target@),
{
    let args = vec!["is-active".to_owned(), text::trim(target).to_owned()];
    assert(text::texts(args@) == service_query(systemctl@, target@).args);
    CommandLine { program: systemctl, args }
}

/// The command that asks docker whether a container is running.
pub fn query_container(docker: &'static str, target: &str) -> (r: CommandLine)
    ensures
        r@ == container_query(docker@, target@),
{
    let args = vec![
        "inspect".to_owned(),
        "-f".to_owned(),
        RUNNING_FORMAT.to_owned(),
        text::trim(target).to_owned(),
    ];
    assert(text::texts(args@) == container_query(docker@, target@).args);
    CommandLine { program: docker, args }
}

/// The command lines that ask for the state of a service and of a container.
pub proof fn law_queries(
    systemctl: &'static str,
    docker: &'static str,
    target: &str,
    s: CommandLine,
    d: CommandLine,
)
    requires
        call_ensures(query_service, (systemctl, target), s),
        call_ensures(query_container, (docker, target), d),
    ensures
        s@ == service_query(systemctl@, target@),
        s.program@ == systemctl@,
        s.args@.len() == 2,
        s.args@[0]@ == "is-active"@,
        s.args@[1]@ == text::trimmed(target@),
        d@ == container_query(docker@, target@),
        d.program@ == docker@,
        d.args@.len() == 4,
        d.args@[0]@ == "inspect"@,
        d.args@[1]@ == "-f"@,
        d.args@[2]@ == "{{.State.Running}}"@,
        d.args@[3]@ == text::trimmed(target@),
{
    assert(text::texts(s.args@).len() == s.args@.len());
    assert(text::texts(s.args@)[0] == s.args@[0]@);
    assert(text::texts(s.args@)[1] == s.args@[1]@);
    assert(text::texts(d.args@).len() == d.args@.len());
    assert(text::texts(d.args@)[0] == d.args@[0]@);
    assert(text::texts(d.args@)[1] == d.args@[1]@);
    assert(text::texts(d.args@)[2] == d.args@[2]@);
    assert(text::texts(d.args@)[3] == d.args@[3]@);
}

} // verus!
