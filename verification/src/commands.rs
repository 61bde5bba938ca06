//! Programs that the engine runs, and what it makes of their results.

use crate::clock;
use crate::text;
use crate::unicode;
use vstd::prelude::*;
use vstd::string::*;

verus! {

pub const USR_BIN_SYSTEMCTL: &'static str = "/usr/bin/systemctl";

pub const BIN_SYSTEMCTL: &'static str = "/bin/systemctl";

pub const USR_BIN_DOCKER: &'static str = "/usr/bin/docker";

pub const BIN_DOCKER: &'static str = "/bin/docker";

pub const USR_LOCAL_BIN_DOCKER: &'static str = "/usr/local/bin/docker";

/// For how long a program may run.
pub const COMMAND_TIMEOUT_SECS: u64 = 20;

/// Which of the places where the programs may be installed hold something.
#[derive(Clone, Copy, Debug)]
pub struct Installed {
    pub usr_bin_systemctl: bool,
    pub bin_systemctl: bool,
    pub usr_bin_docker: bool,
    pub bin_docker: bool,
    pub usr_local_bin_docker: bool,
}

/// A place where a program may be installed, and whether it holds something.
#[derive(Clone, Copy, Debug)]
pub struct Candidate {
    pub path: &'static str,
    pub exists: bool,
}

/// The texts of a result.
pub open spec fn path_result(r: Result<&'static str, String>) -> Result<Seq<char>, Seq<char>> {
    match r {
        Ok(path) => Ok(path@),
        Err(e) => Err(e@),
    }
}

/// The paths of the candidates.
pub open spec fn candidate_paths(candidates: Seq<Candidate>) -> Seq<Seq<char>> {
    candidates.map_values(|c: Candidate| c.path@)
}

/// Where the first candidate that exists stands in the list, or how long the list is.
pub open spec fn first_existing(candidates: Seq<Candidate>) -> int
    decreases candidates.len(),
{
    if candidates.len() == 0 || candidates[0].exists {
        0
    } else {
        1 + first_existing(candidates.drop_first())
    }
}

/// The path of the first candidate that exists, else a complaint that names them all.
pub open spec fn found_binary(candidates: Seq<Candidate>) -> Result<Seq<char>, Seq<char>> {
    if first_existing(candidates) < candidates.len() {
        Ok(candidates[first_existing(candidates)].path@)
    } else {
        Err(
            "Required binary not found. Checked: "@ + text::joined(
                candidate_paths(candidates),
                ", "@,
            ),
        )
    }
}

proof fn lemma_first_existing(candidates: Seq<Candidate>, n: int)
    requires
        0 <= n <= candidates.len(),
        forall|k: int| 0 <= k < n ==> !(#[trigger] candidates[k]).exists,
        n < candidates.len() ==> candidates[n].exists,
    ensures
        first_existing(candidates) == n,
    decreases n,
{
    if n > 0 {
        let rest = candidates.drop_first();
        assert forall|k: int| 0 <= k < n - 1 implies !(#[trigger] rest[k]).exists by {
            assert(!candidates[k + 1].exists);
        }
        assert(!candidates[0].exists);
        lemma_first_existing(rest, n - 1);
    }
}

/// The path of the first candidate that exists.
pub fn find_binary(candidates: &Vec<Candidate>) -> (r: Result<&'static str, String>)
    ensures
        path_result(r) == found_binary(candidates@),
{
    let mut checked: Vec<&str> = Vec::new();
    for i in 0..candidates.len()
        invariant
            text::slices(checked@) == candidate_paths(candidates@).take(i as int),
            forall|k: int| 0 <= k < i ==> !(#[trigger] candidates@[k]).exists,
    {
        if candidates[i].exists {
            proof {
                lemma_first_existing(candidates@, i as int);
            }
            return Ok(candidates[i].path);
        }
        let ghost before = checked@;
        checked.push(candidates[i].path);
        assert(text::slices(checked@) == text::slices(before).push(candidates@[i as int].path@));
        assert(candidate_paths(candidates@).take(i + 1) == candidate_paths(candidates@).take(
            i as int,
        ).push(candidates@[i as int].path@));
    }
    proof {
        lemma_first_existing(candidates@, candidates@.len() as int);
        assert(candidate_paths(candidates@).take(candidates@.len() as int) == candidate_paths(
            candidates@,
        ));
    }
    Err(
        "Required binary not found. Checked: ".to_owned().concat(
            text::join(&checked, ", ").as_str(),
        ),
    )
}

/// Where systemctl is looked for.
pub open spec fn systemctl_candidates(installed: Installed) -> Seq<Candidate> {
    seq![
        Candidate { path: USR_BIN_SYSTEMCTL, exists: installed.usr_bin_systemctl },
        Candidate { path: BIN_SYSTEMCTL, exists: installed.bin_systemctl },
    ]
}

/// Where docker is looked for.
pub open spec fn docker_candidates(installed: Installed) -> Seq<Candidate> {
    seq![
        Candidate { path: USR_BIN_DOCKER, exists: installed.usr_bin_docker },
        Candidate { path: BIN_DOCKER, exists: installed.bin_docker },
        Candidate { path: USR_LOCAL_BIN_DOCKER, exists: installed.usr_local_bin_docker },
    ]
}

/// The systemctl program to use.
pub open spec fn systemctl_path(installed: Installed) -> Result<Seq<char>, Seq<char>> {
    found_binary(systemctl_candidates(installed))
}

/// The docker program to use.
pub open spec fn docker_path(installed: Installed) -> Result<Seq<char>, Seq<char>> {
    found_binary(docker_candidates(installed))
}

/// The path of the systemctl program.
pub fn systemctl(installed: &Installed) -> (r: Result<&'static str, String>)
    ensures
        path_result(r) == systemctl_path(*installed),
{
    let candidates = vec![
        Candidate { path: USR_BIN_SYSTEMCTL, exists: installed.usr_bin_systemctl },
        Candidate { path: BIN_SYSTEMCTL, exists: installed.bin_systemctl },
    ];
    assert(candidates@ == systemctl_candidates(*installed));
    find_binary(&candidates)
}

/// The path of the docker program.
pub fn docker(installed: &Installed) -> (r: Result<&'static str, String>)
    ensures
        path_result(r) == docker_path(*installed),
{
    let candidates = vec![
        Candidate { path: USR_BIN_DOCKER, exists: installed.usr_bin_docker },
        Candidate { path: BIN_DOCKER, exists: installed.bin_docker },
        Candidate { path: USR_LOCAL_BIN_DOCKER, exists: installed.usr_local_bin_docker },
    ];
    assert(candidates@ == docker_candidates(*installed));
    find_binary(&candidates)
}

/// A program and the arguments to run it with.
#[derive(Debug)]
pub struct CommandLine {
    pub program: &'static str,
    pub args: Vec<String>,
}

/// The texts of a command line.
#[verifier::ext_equal]
pub struct CommandLineView {
    pub program: Seq<char>,
    pub args: Seq<Seq<char>>,
}

impl View for CommandLine {
    type V = CommandLineView;

    open spec fn view(&self) -> CommandLineView {
        CommandLineView { program: self.program@, args: text::texts(self.args@) }
    }
}

/// A command line with two arguments.
pub fn command(program: &'static str, first: &str, second: &str) -> (r: CommandLine)
    ensures
        r@ == (CommandLineView { program: program@, args: seq![first@, second@] }),
{
    let args = vec![first.to_owned(), second.to_owned()];
    assert(text::texts(args@) == seq![first@, second@]);
    CommandLine { program, args }
}

/// The line that announces a command.
pub open spec fn exec_message(c: CommandLineView) -> Seq<char> {
    "[EXEC] "@ + c.program + " "@ + text::joined(c.args, " "@)
}

/// The line that announces a command.
pub fn exec_line(c: &CommandLine) -> (r: String)
    ensures
        r@ == exec_message(c@),
{
    let args = text::join(&text::slices_of(&c.args), " ");
    "[EXEC] ".to_owned().concat(c.program).concat(" ").concat(args.as_str())
}

/// What is said where a program could not be started.
pub fn start_failure(program: &str, error: &str) -> (r: String)
    ensures
        r@ == "Failed to start "@ + program@ + ": "@ + error@,
{
    "Failed to start ".to_owned().concat(program).concat(": ").concat(error)
}

/// What a look at a running program shows.
#[derive(Debug)]
pub enum ChildState {
    /// It has ended; `status` describes how.
    Exited { success: bool, status: String },
    /// It is still running.
    Running,
    /// Its state could not be read, for this reason.
    Unreadable(String),
}

/// What to do about a running program.
#[derive(Debug)]
pub enum Poll {
    /// It has done its work.
    Succeeded,
    /// It has failed.
    Failed(String),
    /// It must be killed, and counts as failed.
    Kill(String),
    /// It may go on; look again in a while.
    Wait,
}

/// The texts of a decision about a running program.
pub enum PollView {
    Succeeded,
    Failed(Seq<char>),
    Kill(Seq<char>),
    Wait,
}

impl View for Poll {
    type V = PollView;

    open spec fn view(&self) -> PollView {
        match *self {
            Poll::Succeeded => PollView::Succeeded,
            Poll::Failed(e) => PollView::Failed(e@),
            Poll::Kill(e) => PollView::Kill(e@),
            Poll::Wait => PollView::Wait,
        }
    }
}

/// What to do about `program`, which has been running for `running` nanoseconds: it may run for
/// fewer than `COMMAND_TIMEOUT_SECS` seconds, and a failed end is told with the words `exited`.
pub open spec fn polled(
    program: Seq<char>,
    exited: Seq<char>,
    state: ChildState,
    running: u128,
) -> PollView {
    match state {
        ChildState::Exited { success, status } => if success {
            PollView::Succeeded
        } else {
            PollView::Failed(program + exited + status@)
        },
        ChildState::Running => if running >= clock::nanos(COMMAND_TIMEOUT_SECS) {
            PollView::Kill(
                program + " timed out after "@ + text::decimal(COMMAND_TIMEOUT_SECS as nat)
                    + " seconds"@,
            )
        } else {
            PollView::Wait
        },
        ChildState::Unreadable(e) => PollView::Failed("Failed waiting for "@ + program + ": "@ + e@),
    }
}

/// Decides what to do about a running program.
pub fn poll(program: &str, exited: &str, state: &ChildState, running: u128) -> (r: Poll)
    ensures
        r@ == polled(program@, exited@, *state, running),
{
    match state {
        ChildState::Exited { success, status } => if *success {
            Poll::Succeeded
        } else {
            Poll::Failed(program.to_owned().concat(exited).concat(status.as_str()))
        },
        ChildState::Running => if clock::is_recent(running, 0, COMMAND_TIMEOUT_SECS) {
            Poll::Wait
        } else {
            Poll::Kill(
                program.to_owned().concat(" timed out after ").concat(
                    text::decimal_text(COMMAND_TIMEOUT_SECS).as_str(),
                ).concat(" seconds"),
            )
        },
        ChildState::Unreadable(e) => Poll::Failed(
            "Failed waiting for ".to_owned().concat(program).concat(": ").concat(e.as_str()),
        ),
    }
}

/// What a program that ran to its end left behind.
#[derive(Debug)]
pub struct CommandOutput {
    pub success: bool,
    pub stdout: Vec<u8>,
}

/// Whether a program succeeded and said `expected`, white space round it aside.
pub open spec fn reported(success: bool, said: Seq<char>, expected: Seq<char>) -> bool {
    success && text::trimmed(said) == expected
}

/// Tells whether a program succeeded and said `expected`, white space round it aside.
pub fn report_says(success: bool, said: &str, expected: &str) -> (r: bool)
    ensures
        r == reported(success, said@, expected@),
{
    success && text::same_text(text::trim(said), expected)
}

/// Tells whether a program succeeded and printed `expected`, white space round it aside.
pub fn output_says(output: &CommandOutput, expected: &str) -> (r: bool)
    ensures
        r == reported(output.success, unicode::lossy_text(output.stdout@), expected@),
{
    report_says(
        output.success,
        unicode::text_of_bytes(output.stdout.as_slice()).as_str(),
        expected,
    )
}

/// Whether a path is one where systemctl may be installed.
pub open spec fn systemctl_place(path: Seq<char>) -> bool {
    ||| path == USR_BIN_SYSTEMCTL@
    ||| path == BIN_SYSTEMCTL@
}

/// Whether a path is one where docker may be installed.
pub open spec fn docker_place(path: Seq<char>) -> bool {
    ||| path == USR_BIN_DOCKER@
    ||| path == BIN_DOCKER@
    ||| path == USR_LOCAL_BIN_DOCKER@
}

/// Whether a command does nothing but restart one service or container.
pub open spec fn restarts_only(c: CommandLineView) -> bool {
    &&& c.args.len() == 2
    &&& c.args[0] == "restart"@
    &&& systemctl_place(c.program) || docker_place(c.program)
}

/// Whatever program is found stands at one of the known places, and exists.
pub proof fn law_found_programs_are_known(installed: Installed)
    ensures
        systemctl_path(installed) matches Ok(p) ==> {
            ||| p == USR_BIN_SYSTEMCTL@ && installed.usr_bin_systemctl
            ||| p == BIN_SYSTEMCTL@ && installed.bin_systemctl
        },
        docker_path(installed) matches Ok(p) ==> {
            ||| p == USR_BIN_DOCKER@ && installed.usr_bin_docker
            ||| p == BIN_DOCKER@ && installed.bin_docker
            ||| p == USR_LOCAL_BIN_DOCKER@ && installed.usr_local_bin_docker
        },
{
    reveal_with_fuel(first_existing, 4);
    let s = systemctl_candidates(installed);
    let d = docker_candidates(installed);
    assert(s.drop_first()[0] == s[1]);
    assert(d.drop_first()[0] == d[1]);
    assert(d.drop_first().drop_first()[0] == d[2]);
}

/// Of the places where a program may be installed the first that holds something is taken; where
/// none does, all of them are named.
pub proof fn law_first_place_is_taken(candidates: &Vec<Candidate>, r: Result<&'static str, String>)
    requires
        call_ensures(find_binary, (candidates,), r),
    ensures
        r is Ok <==> exists|i: int| 0 <= i < candidates@.len() && (#[trigger] candidates@[i]).exists,
        forall|i: int|
            0 <= i < candidates@.len() && (#[trigger] candidates@[i]).exists && (forall|k: int|
                0 <= k < i ==> !(#[trigger] candidates@[k]).exists) ==> (r matches Ok(p) && p@
                == candidates@[i].path@),
        r matches Err(e) ==> e@ == "Required binary not found. Checked: "@ + text::joined(
            Seq::new(candidates@.len(), |i: int| candidates@[i].path@),
            ", "@,
        ),
{
    let c = candidates@;
    assert(candidate_paths(c) == Seq::new(c.len(), |i: int| c[i].path@));
    lemma_first_existing_bounds(c);
    assert forall|i: int|
        0 <= i < c.len() && (#[trigger] c[i]).exists && (forall|k: int|
            0 <= k < i ==> !(#[trigger] c[k]).exists) implies (r matches Ok(p) && p@
        == c[i].path@) by {
        lemma_first_existing(c, i);
    }
}

proof fn lemma_first_existing_bounds(candidates: Seq<Candidate>)
    ensures
        0 <= first_existing(candidates) <= candidates.len(),
        first_existing(candidates) < candidates.len() <==> exists|i: int|
            0 <= i < candidates.len() && (#[trigger] candidates[i]).exists,
        first_existing(candidates) < candidates.len() ==> candidates[first_existing(
            candidates,
        )].exists,
    decreases candidates.len(),
{
    if candidates.len() > 0 && !candidates[0].exists {
        let rest = candidates.drop_first();
        lemma_first_existing_bounds(rest);
        if exists|i: int| 0 <= i < candidates.len() && (#[trigger] candidates[i]).exists {
            let i = choose|i: int| 0 <= i < candidates.len() && (#[trigger] candidates[i]).exists;
            assert(rest[i - 1].exists);
        }
        if first_existing(rest) < rest.len() {
            assert(candidates[first_existing(rest) + 1].exists);
        }
    }
}

/// Where systemctl and docker are looked for, and in which order.
pub proof fn law_places_of_the_programs(
    installed: &Installed,
    s: Result<&'static str, String>,
    d: Result<&'static str, String>,
)
    requires
        call_ensures(systemctl, (installed,), s),
        call_ensures(docker, (installed,), d),
    ensures
        path_result(s) == systemctl_path(*installed),
        path_result(d) == docker_path(*installed),
        installed.usr_bin_systemctl ==> (s matches Ok(p) && p@ == "/usr/bin/systemctl"@),
        !installed.usr_bin_systemctl && installed.bin_systemctl ==> (s matches Ok(p) && p@
            == "/bin/systemctl"@),
        !installed.usr_bin_systemctl && !installed.bin_systemctl ==> (s matches Err(e) && e@
            == "Required binary not found. Checked: /usr/bin/systemctl, /bin/systemctl"@),
        installed.usr_bin_docker ==> (d matches Ok(p) && p@ == "/usr/bin/docker"@),
        !installed.usr_bin_docker && installed.bin_docker ==> (d matches Ok(p) && p@
            == "/bin/docker"@),
        !installed.usr_bin_docker && !installed.bin_docker && installed.usr_local_bin_docker ==> (
        d matches Ok(p) && p@ == "/usr/local/bin/docker"@),
        !installed.usr_bin_docker && !installed.bin_docker && !installed.usr_local_bin_docker ==> (
        d matches Err(e) && e@
            == "Required binary not found. Checked: /usr/bin/docker, /bin/docker, /usr/local/bin/docker"@),
{
    reveal_with_fuel(first_existing, 4);
    reveal_with_fuel(text::joined, 4);
    let sc = systemctl_candidates(*installed);
    let dc = docker_candidates(*installed);
    assert(sc.drop_first()[0] == sc[1]);
    assert(sc.drop_first().drop_first().len() == 0);
    assert(dc.drop_first()[0] == dc[1]);
    assert(dc.drop_first().drop_first()[0] == dc[2]);
    assert(dc.drop_first().drop_first().drop_first().len() == 0);
    assert(candidate_paths(sc) == seq![USR_BIN_SYSTEMCTL@, BIN_SYSTEMCTL@]);
    assert(candidate_paths(sc).drop_last() == seq![USR_BIN_SYSTEMCTL@]);
    assert(candidate_paths(dc) == seq![USR_BIN_DOCKER@, BIN_DOCKER@, USR_LOCAL_BIN_DOCKER@]);
    assert(candidate_paths(dc).drop_last() == seq![USR_BIN_DOCKER@, BIN_DOCKER@]);
    assert(candidate_paths(dc).drop_last().drop_last() == seq![USR_BIN_DOCKER@]);
    reveal_strlit("Required binary not found. Checked: ");
    reveal_strlit(", ");
    reveal_strlit("/usr/bin/systemctl");
    reveal_strlit("/bin/systemctl");
    reveal_strlit("/usr/bin/docker");
    reveal_strlit("/bin/docker");
    reveal_strlit("/usr/local/bin/docker");
    reveal_strlit("Required binary not found. Checked: /usr/bin/systemctl, /bin/systemctl");
    reveal_strlit(
        "Required binary not found. Checked: /usr/bin/docker, /bin/docker, /usr/local/bin/docker",
    );
    assert("Required binary not found. Checked: "@ + (USR_BIN_SYSTEMCTL@ + ", "@ + BIN_SYSTEMCTL@)
        == "Required binary not found. Checked: /usr/bin/systemctl, /bin/systemctl"@);
    assert("Required binary not found. Checked: "@ + (USR_BIN_DOCKER@ + ", "@ + BIN_DOCKER@ + ", "@
        + USR_LOCAL_BIN_DOCKER@)
        == "Required binary not found. Checked: /usr/bin/docker, /bin/docker, /usr/local/bin/docker"@);
}

/// A program is let run until it ends, for fewer than 20 seconds. It has done its work exactly when
/// it ends well, and is killed exactly when it runs on at that time.
pub proof fn law_programs_have_their_time(
    program: &str,
    exited: &str,
    state: &ChildState,
    running: u128,
    r: Poll,
)
    requires
        call_ensures(poll, (program, exited, state, running), r),
    ensures
        r is Succeeded <==> (*state matches ChildState::Exited { success, status } && success),
        r is Wait <==> *state is Running && running < 20_000_000_000,
        r is Kill <==> *state is Running && running >= 20_000_000_000,
        r matches Poll::Kill(e) ==> e@ == program@ + " timed out after 20 seconds"@,
        r matches Poll::Failed(e) ==> match *state {
            ChildState::Exited { success, status } => e@ == program@ + exited@ + status@,
            ChildState::Unreadable(why) => e@ == "Failed waiting for "@ + program@ + ": "@ + why@,
            ChildState::Running => false,
        },
{
    reveal_with_fuel(text::decimal, 3);
    reveal_strlit(" timed out after ");
    reveal_strlit(" seconds");
    reveal_strlit(" timed out after 20 seconds");
    assert(text::decimal(20) == seq!['2', '0']);
    assert(program@ + " timed out after "@ + text::decimal(20) + " seconds"@ == program@
        + " timed out after 20 seconds"@);
}

/// A program has reported what was expected exactly when it ended well and said just that, white
/// space round it aside.
pub proof fn law_reports(success: bool, said: &str, expected: &str, r: bool)
    requires
        call_ensures(report_says, (success, said, expected), r),
    ensures
        r == (success && text::trimmed(said@) == expected@),
        r == reported(success, said@, expected@),
{
}

/// What a program printed is read as text.
pub proof fn law_outputs_are_read(output: &CommandOutput, expected: &str, r: bool)
    requires
        call_ensures(output_says, (output, expected), r),
    ensures
        r == (output.success && text::trimmed(unicode::lossy_text(output.stdout@)) == expected@),
{
}

/// A command line with two arguments holds them in this order, and is announced with them.
pub proof fn law_command_lines(
    program: &'static str,
    first: &str,
    second: &str,
    c: CommandLine,
    line: String,
)
    requires
        call_ensures(command, (program, first, second), c),
        call_ensures(exec_line, (&c,), line),
    ensures
        c.program@ == program@,
        c.args@.len() == 2,
        c.args@[0]@ == first@,
        c.args@[1]@ == second@,
        line@ == "[EXEC] "@ + program@ + " "@ + (first@ + " "@ + second@),
{
    reveal_with_fuel(text::joined, 3);
    assert(c@.args == seq![first@, second@]);
    assert(c@.args.drop_last() == seq![first@]);
    assert(text::texts(c.args@).len() == c.args@.len());
    assert(text::texts(c.args@)[0] == c.args@[0]@);
    assert(text::texts(c.args@)[1] == c.args@[1]@);
}

} // verus!
