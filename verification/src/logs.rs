//! The engine's own logs, and the file that it watches.

use crate::text;
use vstd::prelude::*;
use vstd::string::*;

verus! {

/// The size from which on the incident log is put aside.
pub const MAX_INCIDENT_LOG_BYTES: u64 = 10 * 1024 * 1024;

/// Which file a path leads to.
#[derive(Clone, Copy, Debug, PartialEq, Eq, Structural)]
pub struct FileIdentity {
    pub dev: u64,
    pub ino: u64,
}

/// The time in a log entry: the seconds since the epoch.
pub fn now_string(secs: u64) -> (r: String)
    ensures
        r@ == text::decimal(secs as nat),
{
    text::decimal_text(secs)
}

/// A log entry without the end of its line.
pub fn log_entry(now: &str, message: &str) -> (r: String)
    ensures
        r@ == "["@ + now@ + "] "@ + message@,
{
    "[".to_owned().concat(now).concat("] ").concat(message)
}

/// The line with which the engine gives up.
pub fn fatal_line(error: &str) -> (r: String)
    ensures
        r@ == "[FATAL] "@ + error@,
{
    "[FATAL] ".to_owned().concat(error)
}

/// Tells whether an incident log of this size is put aside before the next entry.
pub fn must_rotate(size: u64) -> (r: bool)
    ensures
        r == (size >= MAX_INCIDENT_LOG_BYTES),
{
    size >= MAX_INCIDENT_LOG_BYTES
}

/// The incident log is put aside once it holds ten mebibytes, and not before.
pub proof fn law_logs_are_put_aside_when_full(size: u64, r: bool)
    requires
        call_ensures(must_rotate, (size,), r),
    ensures
        r == (size >= 10_485_760),
{
}

/// A log entry shows the seconds since the epoch in brackets, and then the message.
pub proof fn law_log_entries(secs: u64, now: String, message: &str, r: String, shown: &str)
    requires
        call_ensures(now_string, (secs,), now),
        call_ensures(log_entry, (shown, message), r),
        shown@ == now@,
    ensures
        r@ == seq!['['] + text::decimal(secs as nat) + seq![']', ' '] + message@,
{
    reveal_strlit("[");
    reveal_strlit("] ");
    assert("["@ == seq!['[']);
    assert("] "@ == seq![']', ' ']);
}

} // verus!
