//! The places that the engine uses.

use crate::text;
use vstd::prelude::*;
use vstd::string::*;

verus! {

pub const AEGIRA_DIR: &'static str = "/etc/aegira";

pub const LOGS_DIR: &'static str = "/var/log/aegira";

pub const LOG_FILE_PATH: &'static str = "/var/log/aegira/system.log";

pub const INCIDENT_LOG_PATH: &'static str = "/var/log/aegira/incident.log";

/// The directory of the engine.
pub fn get_aegira_dir() -> (r: &'static str)
    ensures
        r@ == AEGIRA_DIR@,
{
    AEGIRA_DIR
}

/// What is said where a file or directory could not be created.
pub fn creation_failure(path: &str, error: &str) -> (r: String)
    ensures
        r@ == "Failed to create "@ + path@ + ": "@ + error@,
{
    "Failed to create ".to_owned().concat(path).concat(": ").concat(error)
}

/// What is said where it could not be found out which file a path leads to.
pub fn identity_failure(path: &str, error: &str) -> (r: String)
    ensures
        r@ == "Failed to read metadata for "@ + path@ + ": "@ + error@,
{
    "Failed to read metadata for ".to_owned().concat(path).concat(": ").concat(error)
}

/// What the engine does when it starts.
#[derive(Clone, Copy, Debug)]
pub enum StartStep {
    /// It creates its directories and files.
    SetUp,
    /// It looks how long the watched log is.
    Inspect,
    /// It finds out which file that is.
    Identify,
}

/// What is said in front of the error where a step of the start fails.
pub open spec fn startup_failure_text(step: StartStep) -> Seq<char> {
    match step {
        StartStep::SetUp => "[FATAL] Environment setup failed: "@,
        StartStep::Inspect => "[FATAL] Failed to inspect monitored log: "@,
        StartStep::Identify => "[FATAL] "@,
    }
}

/// The line with which the engine gives up where a step of the start fails.
pub fn startup_failure(step: StartStep, error: &str) -> (r: String)
    ensures
        r@ == startup_failure_text(step) + error@,
{
    let said = match step {
        StartStep::SetUp => "[FATAL] Environment setup failed: ",
        StartStep::Inspect => "[FATAL] Failed to inspect monitored log: ",
        StartStep::Identify => "[FATAL] ",
    };
    said.to_owned().concat(error)
}

/// What the engine does with log files while it runs.
#[derive(Clone, Copy, Debug)]
pub enum LogStep {
    /// It puts its incident log aside.
    Rotate,
    /// It looks how long the watched log is.
    Stat,
    /// It finds out which file that is.
    Identify,
    /// It opens the watched log.
    Open,
    /// It goes to where it stopped reading.
    Seek,
    /// It reads on.
    Read,
}

/// What is said in front of the error where a step with a log file fails.
pub open spec fn log_failure_text(step: LogStep) -> Seq<char> {
    match step {
        LogStep::Rotate => "[LOG ERROR] Failed to rotate incident log: "@,
        LogStep::Stat => "[LOG ERROR] Failed to stat monitored log: "@,
        LogStep::Identify => "[LOG ERROR] "@,
        LogStep::Open => "[LOG ERROR] Failed opening monitored log: "@,
        LogStep::Seek => "[LOG ERROR] Failed seeking monitored log: "@,
        LogStep::Read => "[LOG ERROR] Failed reading monitored log: "@,
    }
}

/// The line that tells that a step with a log file has failed.
pub fn log_failure(step: LogStep, error: &str) -> (r: String)
    ensures
        r@ == log_failure_text(step) + error@,
{
    let said = match step {
        LogStep::Rotate => "[LOG ERROR] Failed to rotate incident log: ",
        LogStep::Stat => "[LOG ERROR] Failed to stat monitored log: ",
        LogStep::Identify => "[LOG ERROR] ",
        LogStep::Open => "[LOG ERROR] Failed opening monitored log: ",
        LogStep::Seek => "[LOG ERROR] Failed seeking monitored log: ",
        LogStep::Read => "[LOG ERROR] Failed reading monitored log: ",
    };
    said.to_owned().concat(error)
}

/// The line that tells that the start is over.
pub const MONITORING_LINE: &'static str = "[INFO] Monitoring new log entries...";

/// The lines with which the engine starts.
pub open spec fn start_texts() -> Seq<Seq<char>> {
    seq![
        "[INFO] Aegira Recovery Engine Started"@,
        "[INFO] Aegira directory: "@ + AEGIRA_DIR@,
        "[INFO] Monitoring log: "@ + LOG_FILE_PATH@,
    ]
}

/// The lines with which the engine starts.
pub fn start_lines() -> (r: Vec<String>)
    ensures
        text::texts(r@) == start_texts(),
{
    let lines = vec![
        "[INFO] Aegira Recovery Engine Started".to_owned(),
        "[INFO] Aegira directory: ".to_owned().concat(get_aegira_dir()),
        "[INFO] Monitoring log: ".to_owned().concat(LOG_FILE_PATH),
    ];
    assert(text::texts(lines@) == start_texts());
    lines
}

/// The line that says how many rules are in use when the engine starts.
pub fn ready_line(rules: usize) -> (r: String)
    ensures
        r@ == "[INFO] "@ + text::decimal(rules as nat) + " remediation rules ready"@,
{
    "[INFO] ".to_owned().concat(text::decimal_text(rules as u64).as_str()).concat(
        " remediation rules ready",
    )
}

/// The line that says how many rules are in use after they have been read again.
pub fn reloaded_line(rules: usize) -> (r: String)
    ensures
        r@ == "[RULES] Rules reloaded: "@ + text::decimal(rules as nat) + " active"@,
{
    "[RULES] Rules reloaded: ".to_owned().concat(text::decimal_text(rules as u64).as_str()).concat(
        " active",
    )
}

/// A failure is told by the step that failed and the error: at the start as a fatal one, later as one
/// of the log.
pub proof fn law_failures_are_told(
    start: StartStep,
    step: LogStep,
    error: &str,
    fatal: String,
    later: String,
)
    requires
        call_ensures(startup_failure, (start, error), fatal),
        call_ensures(log_failure, (step, error), later),
    ensures
        start is SetUp ==> fatal@ == "[FATAL] Environment setup failed: "@ + error@,
        start is Inspect ==> fatal@ == "[FATAL] Failed to inspect monitored log: "@ + error@,
        start is Identify ==> fatal@ == "[FATAL] "@ + error@,
        step is Rotate ==> later@ == "[LOG ERROR] Failed to rotate incident log: "@ + error@,
        step is Stat ==> later@ == "[LOG ERROR] Failed to stat monitored log: "@ + error@,
        step is Identify ==> later@ == "[LOG ERROR] "@ + error@,
        step is Open ==> later@ == "[LOG ERROR] Failed opening monitored log: "@ + error@,
        step is Seek ==> later@ == "[LOG ERROR] Failed seeking monitored log: "@ + error@,
        step is Read ==> later@ == "[LOG ERROR] Failed reading monitored log: "@ + error@,
{
}

/// The number of rules in use is told at the start and after each reload.
pub proof fn law_number_of_rules_is_told(rules: usize, ready: String, reloaded: String)
    requires
        call_ensures(ready_line, (rules,), ready),
        call_ensures(reloaded_line, (rules,), reloaded),
    ensures
        ready@ == "[INFO] "@ + text::decimal(rules as nat) + " remediation rules ready"@,
        reloaded@ == "[RULES] Rules reloaded: "@ + text::decimal(rules as nat) + " active"@,
{
}

} // verus!
