//! Following a log file as it grows.

use crate::clock;
use crate::lines;
use crate::logs::FileIdentity;
use crate::text;
use vstd::prelude::*;
use vstd::string::*;
use vstd::utf8::*;

verus! {

pub const POLL_INTERVAL_SECS: u64 = 2;

pub const RULE_RELOAD_INTERVAL_SECS: u64 = 10;

/// How far a log file has been read.
#[derive(Debug)]
pub struct Watcher {
    /// How many bytes have been read.
    pub position: u64,
    /// The file that they were read from.
    pub identity: FileIdentity,
}

/// How far a log file has been read.
#[verifier::ext_equal]
pub struct WatcherView {
    pub position: nat,
    pub identity: FileIdentity,
}

impl View for Watcher {
    type V = WatcherView;

    open spec fn view(&self) -> WatcherView {
        WatcherView { position: self.position as nat, identity: self.identity }
    }
}

/// What has become of the file since the last look.
#[derive(Clone, Copy, Debug, PartialEq, Eq, Structural)]
pub enum Change {
    /// It is the same, and no shorter than what has been read.
    Same,
    /// Another file has taken its place.
    Rotated,
    /// It is shorter than what has been read.
    Truncated,
}

/// The line that tells of a change.
pub fn change_line(change: Change) -> (r: Option<&'static str>)
    ensures
        match change {
            Change::Same => r is None,
            Change::Rotated => r matches Some(s) && s@
                == "[INFO] Log rotation detected. Resetting position."@,
            Change::Truncated => r matches Some(s) && s@
                == "[INFO] Log truncation detected. Resetting position."@,
        },
{
    match change {
        Change::Same => None,
        Change::Rotated => Some("[INFO] Log rotation detected. Resetting position."),
        Change::Truncated => Some("[INFO] Log truncation detected. Resetting position."),
    }
}

/// What a piece of text read from the file is.
#[derive(Debug)]
pub enum Line {
    /// The beginning of a line whose end has not been written yet. It is read again later.
    Unfinished,
    /// A line that needs no attention.
    Quiet,
    /// A line that tells of an incident, without the white space round it.
    Incident(String),
}

/// The texts of a piece of text.
pub enum LineView {
    Unfinished,
    Quiet,
    Incident(Seq<char>),
}

impl View for Line {
    type V = LineView;

    open spec fn view(&self) -> LineView {
        match *self {
            Line::Unfinished => LineView::Unfinished,
            Line::Quiet => LineView::Quiet,
            Line::Incident(s) => LineView::Incident(s@),
        }
    }
}

/// Whether a line tells of an incident.
pub open spec fn alarming(line: Seq<char>) -> bool {
    text::occurs("[ERROR]"@, line) || text::occurs("[CRITICAL]"@, line)
}

/// What a piece of text read from the file is.
pub open spec fn classified(piece: Seq<char>) -> LineView {
    if !lines::ends_line(piece) {
        LineView::Unfinished
    } else if alarming(text::trimmed(piece)) {
        LineView::Incident(text::trimmed(piece))
    } else {
        LineView::Quiet
    }
}

/// What has become of the file, given which one the path leads to now and how long it is.
pub open spec fn change_seen(w: WatcherView, identity: FileIdentity, len: nat) -> Change {
    if identity != w.identity {
        Change::Rotated
    } else if len < w.position {
        Change::Truncated
    } else {
        Change::Same
    }
}

/// A watcher after it has seen which file the path leads to and how long it is. Where another file
/// has taken its place, or it is shorter than what has been read, reading starts anew.
pub open spec fn observed(w: WatcherView, identity: FileIdentity, len: nat) -> WatcherView {
    if change_seen(w, identity, len) is Same {
        w
    } else {
        WatcherView { position: 0, identity }
    }
}

/// A watcher after it has read a piece of text. An unfinished line does not count as read.
pub open spec fn read_on(w: WatcherView, piece: Seq<char>) -> WatcherView {
    if lines::ends_line(piece) {
        WatcherView { position: w.position + encode_utf8(piece).len(), ..w }
    } else {
        w
    }
}

impl Watcher {
    /// Starts behind what the file holds already.
    pub fn new(identity: FileIdentity, len: u64) -> (r: Self)
        ensures
            r@ == (WatcherView { position: len as nat, identity }),
    {
        Watcher { position: len, identity }
    }

    /// Takes note of which file the path leads to and how long it is, and tells what has become
    /// of it and whether there is something to read. Where another file has taken its place, or
    /// it is shorter than what has been read, reading starts anew.
    pub fn observe(&mut self, identity: FileIdentity, len: u64) -> (r: (Change, bool))
        ensures
            r.0 == change_seen(old(self)@, identity, len as nat),
            final(self)@ == observed(old(self)@, identity, len as nat),
            r.1 == (len > final(self)@.position),
    {
        let change = if identity != self.identity {
            self.identity = identity;
            self.position = 0;
            Change::Rotated
        } else if len < self.position {
            self.position = 0;
            Change::Truncated
        } else {
            Change::Same
        };
        (change, len > self.position)
    }

    /// Takes in a piece of text, which ends where a line of the file ends or where the file does.
    /// An unfinished line does not count as read.
    pub fn take_line(&mut self, piece: &str) -> (r: Line)
        requires
            old(self).position + piece.spec_bytes().len() <= u64::MAX,
        ensures
            r@ == classified(piece@),
            final(self)@ == read_on(old(self)@, piece@),
    {
        let chars = text::chars_of(piece);
        if chars.len() == 0 || chars[chars.len() - 1] != '\n' {
            return Line::Unfinished;
        }
        let n: usize = text::byte_length(piece);
        self.position = self.position + n as u64;
        let line = text::trim(piece);
        if text::contains(line, "[ERROR]") || text::contains(line, "[CRITICAL]") {
            Line::Incident(line.to_owned())
        } else {
            Line::Quiet
        }
    }
}

/// Tells whether the rules are due to be read again, `passed` nanoseconds after they were read.
pub fn reload_due(passed: u128) -> (r: bool)
    ensures
        r == (passed >= clock::nanos(RULE_RELOAD_INTERVAL_SECS)),
{
    !clock::is_recent(passed, 0, RULE_RELOAD_INTERVAL_SECS)
}

/// Reading starts anew, from the beginning, exactly when the path leads to another file or the file
/// is shorter than what has been read; else a look changes nothing.
pub proof fn law_looks(w: WatcherView, identity: FileIdentity, len: nat)
    ensures
        change_seen(w, identity, len) is Rotated <==> identity != w.identity,
        change_seen(w, identity, len) is Truncated <==> identity == w.identity && len < w.position,
        identity != w.identity || len < w.position ==> observed(w, identity, len) == (WatcherView {
            position: 0,
            identity,
        }),
        identity == w.identity && len >= w.position ==> observed(w, identity, len) == w,
{
}

/// A line counts as read, with all its bytes, exactly when its end has been. It tells of an incident
/// exactly when it holds `[ERROR]` or `[CRITICAL]`, and is then told without the white space round
/// it.
pub proof fn law_pieces(w: WatcherView, piece: Seq<char>)
    ensures
        classified(piece) is Unfinished <==> !(piece.len() > 0 && piece[piece.len() - 1] == '\n'),
        classified(piece) is Unfinished ==> read_on(w, piece) == w,
        !(classified(piece) is Unfinished) ==> read_on(w, piece) == (WatcherView {
            position: w.position + encode_utf8(piece).len(),
            identity: w.identity,
        }),
        classified(piece) is Incident <==> piece.len() > 0 && piece[piece.len() - 1] == '\n' && (
        text::occurs("[ERROR]"@, text::trimmed(piece)) || text::occurs(
            "[CRITICAL]"@,
            text::trimmed(piece),
        )),
        classified(piece) matches LineView::Incident(line) ==> line == text::trimmed(piece),
{
}

/// What a watcher shows is what it holds, and a line is shown by its text.
pub proof fn law_watchers_are_shown(w: Watcher, line: Line)
    ensures
        w@.position == w.position,
        w@.identity == w.identity,
        line is Unfinished <==> line@ is Unfinished,
        line is Quiet <==> line@ is Quiet,
        line matches Line::Incident(s) ==> line@ == LineView::Incident(s@),
{
}

/// A change is told by what it was, and none is told where there was none.
pub proof fn law_changes_are_told(change: Change, r: Option<&'static str>)
    requires
        call_ensures(change_line, (change,), r),
    ensures
        r is None <==> change is Same,
        change is Rotated ==> r->0@ == "[INFO] Log rotation detected. Resetting position."@,
        change is Truncated ==> r->0@ == "[INFO] Log truncation detected. Resetting position."@,
{
}

/// The rules are read again every ten seconds.
pub proof fn law_rules_are_read_again(passed: u128, r: bool)
    requires
        call_ensures(reload_due, (passed,), r),
    ensures
        r == (passed >= 10_000_000_000),
{
}

/// A look at the file and a piece of text do to a watcher what they are meant to, and say so.
pub proof fn law_watchers_follow_the_file(
    looking: &mut Watcher,
    identity: FileIdentity,
    len: u64,
    seen: (Change, bool),
    reading: &mut Watcher,
    piece: &str,
    line: Line,
)
    requires
        call_ensures(Watcher::observe, (looking, identity, len), seen),
        call_ensures(Watcher::take_line, (reading, piece), line),
    ensures
        seen.0 is Rotated <==> identity != old(looking).identity,
        seen.0 is Truncated <==> identity == old(looking).identity && len < old(looking).position,
        seen.0 is Same ==> final(looking).position == old(looking).position,
        !(seen.0 is Same) ==> final(looking).position == 0,
        final(looking).identity == identity,
        seen.1 <==> len > final(looking).position,
        final(reading).identity == old(reading).identity,
        line is Unfinished <==> !(piece@.len() > 0 && piece@[piece@.len() - 1] == '\n'),
        line is Unfinished ==> final(reading).position == old(reading).position,
        !(line is Unfinished) ==> final(reading).position == old(reading).position
            + piece.spec_bytes().len(),
        line is Incident <==> !(line is Unfinished) && (text::occurs(
            "[ERROR]"@,
            text::trimmed(piece@),
        ) || text::occurs("[CRITICAL]"@, text::trimmed(piece@))),
        line matches Line::Incident(s) ==> s@ == text::trimmed(piece@),
{
}

/// A watcher starts behind what the file holds already.
pub proof fn law_watchers_start_behind(identity: FileIdentity, len: u64, r: Watcher)
    requires
        call_ensures(Watcher::new, (identity, len), r),
    ensures
        r.position == len,
        r.identity == identity,
{
}

} // verus!
