//! Following a log file as it grows.

use crate::clock;
use crate::lines;
use crate::logs::FileIdentity;
use crate::managed::config::Config;
use crate::text;
use vstd::prelude::*;
use vstd::string::*;
use vstd::utf8::*;

verus! {

pub const POLL_SECS: u64 = 2;

pub const RULE_RELOAD_SECS: u64 = 10;

/// The line that says that reading starts anew.
pub const WATCHER_RESET: &'static str =
    "[INFO] Log replacement/truncation detected; watcher position reset";

/// How far a log file has been read.
#[derive(Debug)]
pub struct Watcher {
    /// How many bytes have been read.
    pub position: u64,
    /// The file that they were read from.
    pub identity: FileIdentity,
    /// What has been read of a line whose end has not.
    pub partial: String,
}

/// What a look at the file shows.
#[derive(Clone, Copy, Debug)]
pub struct Observation {
    /// Whether reading starts anew.
    pub reset: bool,
    /// Whether there is something to read.
    pub read: bool,
}

/// How far a log file has been read, with the text of the unfinished line.
#[verifier::ext_equal]
pub struct WatcherView {
    pub position: nat,
    pub identity: FileIdentity,
    pub partial: Seq<char>,
}

impl View for Watcher {
    type V = WatcherView;

    open spec fn view(&self) -> WatcherView {
        WatcherView {
            position: self.position as nat,
            identity: self.identity,
            partial: self.partial@,
        }
    }
}

/// What is left of an unfinished line after a further piece of text.
pub open spec fn partial_after(partial: Seq<char>, piece: Seq<char>) -> Seq<char> {
    if lines::ends_line(partial + piece) {
        Seq::empty()
    } else {
        partial + piece
    }
}

/// The line that a further piece of text completes, without the white space round it. A blank
/// line does not count.
pub open spec fn completed(partial: Seq<char>, piece: Seq<char>) -> Option<Seq<char>> {
    if lines::ends_line(partial + piece) && !text::blank(partial + piece) {
        Some(text::trimmed(partial + piece))
    } else {
        None
    }
}

/// A watcher that starts behind the `len` bytes that a file holds already.
pub open spec fn started(identity: FileIdentity, len: nat) -> WatcherView {
    WatcherView { position: len, identity, partial: Seq::empty() }
}

/// Whether a file that is seen is another than before, or shorter than what has been read.
pub open spec fn replaced(w: WatcherView, identity: FileIdentity, len: nat) -> bool {
    identity != w.identity || len < w.position
}

/// A watcher after it has seen which file the path leads to and how long it is. Where it is another
/// file than before, or shorter than what has been read, reading starts anew.
pub open spec fn observed(w: WatcherView, identity: FileIdentity, len: nat) -> WatcherView {
    if replaced(w, identity, len) {
        started(identity, 0)
    } else {
        w
    }
}

/// A watcher after it has read a further piece of text.
pub open spec fn fed(w: WatcherView, piece: Seq<char>) -> WatcherView {
    WatcherView {
        position: w.position + encode_utf8(piece).len(),
        identity: w.identity,
        partial: partial_after(w.partial, piece),
    }
}

/// The text of a line.
pub open spec fn line_text(r: Option<String>) -> Option<Seq<char>> {
    match r {
        Some(s) => Some(s@),
        None => None,
    }
}

impl Watcher {
    /// Starts behind what the file holds already.
    pub fn new(identity: FileIdentity, len: u64) -> (r: Self)
        ensures
            r@ == started(identity, len as nat),
    {
        Watcher { position: len, identity, partial: String::new() }
    }

    /// Takes note of which file the path leads to and how long it is. Where it is another file
    /// than before, or shorter than what has been read, reading starts anew.
    pub fn observe(&mut self, identity: FileIdentity, len: u64) -> (r: Observation)
        ensures
            r.reset == replaced(old(self)@, identity, len as nat),
            final(self)@ == observed(old(self)@, identity, len as nat),
            r.read == (len > final(self)@.position),
    {
        let mut reset = false;
        if identity != self.identity || len < self.position {
            self.identity = identity;
            self.position = 0;
            self.partial = String::new();
            reset = true;
        }
        Observation { reset, read: len > self.position }
    }

    /// Takes in a further piece of text, which ends where a line of the file ends or where the
    /// file does, and returns the line that it completes.
    pub fn feed(&mut self, piece: &str) -> (r: Option<String>)
        requires
            old(self).position + piece.spec_bytes().len() <= u64::MAX,
        ensures
            final(self)@ == fed(old(self)@, piece@),
            line_text(r) == completed(old(self)@.partial, piece@),
    {
        let n: usize = text::byte_length(piece);
        self.position = self.position + n as u64;
        self.partial.append(piece);
        let chars = text::chars_of(self.partial.as_str());
        if chars.len() == 0 || chars[chars.len() - 1] != '\n' {
            return None;
        }
        let line = text::trim(self.partial.as_str()).to_owned();
        self.partial = String::new();
        if line.as_str().is_empty() {
            None
        } else {
            Some(line)
        }
    }
}

/// Tells whether the rules are due to be read again, `passed` nanoseconds after they were read.
pub fn reload_due(passed: u128) -> (r: bool)
    ensures
        r == (passed >= clock::nanos(RULE_RELOAD_SECS)),
{
    !clock::is_recent(passed, 0, RULE_RELOAD_SECS)
}

/// The lines with which the engine starts.
pub open spec fn start_texts(config: Config) -> Seq<Seq<char>> {
    seq![
        "[INFO] Aegira started"@,
        "[INFO] Mode: "@ + config.mode@,
        "[INFO] Monitoring service: "@ + config.service@,
        "[INFO] Monitoring log: "@ + config.log_path@,
    ]
}

/// The lines with which the engine starts.
pub fn start_lines(config: &Config) -> (r: Vec<String>)
    ensures
        text::texts(r@) == start_texts(*config),
{
    let lines = vec![
        "[INFO] Aegira started".to_owned(),
        "[INFO] Mode: ".to_owned().concat(config.mode.as_str()),
        "[INFO] Monitoring service: ".to_owned().concat(config.service.as_str()),
        "[INFO] Monitoring log: ".to_owned().concat(config.log_path.as_str()),
    ];
    assert(text::texts(lines@) == start_texts(*config));
    lines
}

/// The line that says how many rules are in use.
pub fn loaded_line(rules: usize) -> (r: String)
    ensures
        r@ == "[INFO] "@ + text::decimal(rules as nat) + " active rules loaded"@,
{
    "[INFO] ".to_owned().concat(text::decimal_text(rules as u64).as_str()).concat(
        " active rules loaded",
    )
}

/// What is left of an unfinished line after further pieces of text.
pub open spec fn partial_after_all(partial: Seq<char>, pieces: Seq<Seq<char>>) -> Seq<char>
    decreases pieces.len(),
{
    if pieces.len() == 0 {
        partial
    } else {
        partial_after(partial_after_all(partial, pieces.drop_last()), pieces.last())
    }
}

/// The lines that further pieces of text complete.
pub open spec fn all_completed(partial: Seq<char>, pieces: Seq<Seq<char>>) -> Seq<Seq<char>>
    decreases pieces.len(),
{
    if pieces.len() == 0 {
        Seq::empty()
    } else {
        let before = all_completed(partial, pieces.drop_last());
        match completed(partial_after_all(partial, pieces.drop_last()), pieces.last()) {
            Some(line) => before.push(line),
            None => before,
        }
    }
}

/// What one further piece of text does, seen from all the text that has been read.
pub proof fn lemma_fed(read: Seq<char>, piece: Seq<char>)
    requires
        lines::within_line(piece),
    ensures
        partial_after(lines::unfinished(read), piece) == lines::unfinished(read + piece),
        lines::finished_lines(read + piece) == match completed(lines::unfinished(read), piece) {
            Some(line) => lines::finished_lines(read).push(line),
            None => lines::finished_lines(read),
        },
{
    lines::lemma_further_piece(read, piece);
}

/// However a text is cut into pieces, as long as a line ends nowhere in a piece but at its end,
/// the lines that the pieces complete are the lines of the text that have an end and are not
/// blank, each once and in order, and what is kept is what stands behind its last line end.
pub proof fn law_lines_are_reassembled(partial: Seq<char>, pieces: Seq<Seq<char>>)
    requires
        !partial.contains('\n'),
        forall|k: int| 0 <= k < pieces.len() ==> lines::within_line(#[trigger] pieces[k]),
    ensures
        all_completed(partial, pieces) == lines::finished_lines(partial + pieces.flatten()),
        partial_after_all(partial, pieces) == lines::unfinished(partial + pieces.flatten()),
    decreases pieces.len(),
{
    if pieces.len() == 0 {
        assert(partial + pieces.flatten() == partial);
        lines::lemma_no_line_end(Seq::empty(), partial);
        assert(Seq::<char>::empty() + partial == partial);
    } else {
        let before = pieces.drop_last();
        assert forall|k: int| 0 <= k < before.len() implies lines::within_line(
            #[trigger] before[k],
        ) by {
            assert(before[k] == pieces[k]);
        }
        law_lines_are_reassembled(partial, before);
        assert(pieces == before.push(pieces.last()));
        before.lemma_flatten_push(pieces.last());
        let read = partial + before.flatten();
        assert(partial + pieces.flatten() == read + pieces.last());
        assert(lines::within_line(pieces[pieces.len() - 1]));
        lemma_fed(read, pieces.last());
    }
}

/// A line that arrives in two pieces is put together to what it would be in one.
pub proof fn law_split_lines_are_reassembled(partial: Seq<char>, a: Seq<char>, b: Seq<char>)
    requires
        !lines::ends_line(partial + a),
    ensures
        completed(partial, a) is None,
        completed(partial_after(partial, a), b) == completed(partial, a + b),
        partial_after(partial_after(partial, a), b) == partial_after(partial, a + b),
{
    assert((partial + a) + b == partial + (a + b));
}

/// A line that is handed on has no white space at its ends and is not empty.
pub proof fn law_completed_lines_are_trimmed(partial: Seq<char>, piece: Seq<char>)
    ensures
        completed(partial, piece) matches Some(line) ==> line.len() > 0 && text::trimmed(line)
            == line,
{
    text::law_trimmed_ends(partial + piece);
}

/// Reading starts behind what the file holds already. It starts anew exactly when the path leads to
/// another file or the file is shorter than what has been read, and then from the beginning, with
/// nothing kept of an unfinished line; else a look changes nothing.
pub proof fn law_looks(w: WatcherView, identity: FileIdentity, len: nat)
    ensures
        started(identity, len) == (WatcherView { position: len, identity, partial: Seq::empty() }),
        replaced(w, identity, len) <==> identity != w.identity || len < w.position,
        identity != w.identity || len < w.position ==> observed(w, identity, len) == (WatcherView {
            position: 0,
            identity,
            partial: Seq::empty(),
        }),
        identity == w.identity && len >= w.position ==> observed(w, identity, len) == w,
{
}

/// A piece of text counts as read with all its bytes. A line is handed on exactly when the piece
/// ends with a line end and the line is not blank; until then what has been read of it is kept.
pub proof fn law_pieces(w: WatcherView, piece: Seq<char>)
    ensures
        fed(w, piece).position == w.position + encode_utf8(piece).len(),
        fed(w, piece).identity == w.identity,
        ({
            let all = w.partial + piece;
            let ended = all.len() > 0 && all[all.len() - 1] == '\n';
            &&& !ended ==> fed(w, piece).partial == all && completed(w.partial, piece) is None
            &&& ended ==> fed(w, piece).partial == Seq::<char>::empty()
            &&& ended && text::trimmed(all).len() > 0 ==> completed(w.partial, piece) == Some(
                text::trimmed(all),
            )
            &&& ended && text::trimmed(all).len() == 0 ==> completed(w.partial, piece) is None
            &&& fed(w, piece).partial == partial_after(w.partial, piece)
        }),
{
}

/// What a watcher shows is what it holds, and a line that is handed on is shown by its text.
pub proof fn law_watchers_are_shown(w: Watcher, line: Option<String>)
    ensures
        w@.position == w.position,
        w@.identity == w.identity,
        w@.partial == w.partial@,
        line is Some <==> line_text(line) is Some,
        line matches Some(s) ==> line_text(line) == Some(s@),
{
}

/// The rules are read again every ten seconds.
pub proof fn law_rules_are_read_again(passed: u128, r: bool)
    requires
        call_ensures(reload_due, (passed,), r),
    ensures
        r == (passed >= 10_000_000_000),
{
}

/// A look at the file and a piece of text do to a watcher what they are meant to, and say so.
pub proof fn law_watchers_follow_the_file(
    looking: &mut Watcher,
    identity: FileIdentity,
    len: u64,
    seen: Observation,
    reading: &mut Watcher,
    piece: &str,
    line: Option<String>,
)
    requires
        call_ensures(Watcher::observe, (looking, identity, len), seen),
        call_ensures(Watcher::feed, (reading, piece), line),
    ensures
        seen.reset <==> identity != old(looking).identity || len < old(looking).position,
        seen.reset ==> final(looking).position == 0 && final(looking).partial@.len() == 0,
        !seen.reset ==> final(looking).position == old(looking).position && final(looking).partial@
            == old(looking).partial@,
        final(looking).identity == identity,
        seen.read <==> len > final(looking).position,
        final(reading).position == old(reading).position + piece.spec_bytes().len(),
        final(reading).identity == old(reading).identity,
        final(reading).partial@ == partial_after(old(reading).partial@, piece@),
        line is Some <==> completed(old(reading).partial@, piece@) is Some,
        line matches Some(s) ==> s@ == completed(old(reading).partial@, piece@)->0,
{
}

/// A watcher starts behind what the file holds already.
pub proof fn law_watchers_start_behind(identity: FileIdentity, len: u64, r: Watcher)
    requires
        call_ensures(Watcher::new, (identity, len), r),
    ensures
        r.position == len,
        r.identity == identity,
        r.partial@.len() == 0,
{
}

/// The engine starts by telling its mode, the service and the log.
pub proof fn law_start_lines(config: &Config, r: Vec<String>)
    requires
        call_ensures(start_lines, (config,), r),
    ensures
        r@.len() == 4,
        r@[0]@ == "[INFO] Aegira started"@,
        r@[1]@ == "[INFO] Mode: "@ + config.mode@,
        r@[2]@ == "[INFO] Monitoring service: "@ + config.service@,
        r@[3]@ == "[INFO] Monitoring log: "@ + config.log_path@,
{
    assert(text::texts(r@).len() == r@.len());
    assert(text::texts(r@)[0] == r@[0]@ && text::texts(r@)[1] == r@[1]@ && text::texts(r@)[2]
        == r@[2]@ && text::texts(r@)[3] == r@[3]@);
}

/// The number of rules in use is told.
pub proof fn law_number_of_rules_is_told(rules: usize, r: String)
    requires
        call_ensures(loaded_line, (rules,), r),
    ensures
        r@ == "[INFO] "@ + text::decimal(rules as nat) + " active rules loaded"@,
{
}

} // verus!
