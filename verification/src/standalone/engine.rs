//! The engine as a whole: its rules, what it has read and what it remembers.

use crate::clock::Moment;
use crate::ledger::Ledger;
use crate::lines;
use crate::logs::FileIdentity;
use crate::standalone::incident;
use crate::standalone::incident::Arrival;
use crate::standalone::incident::Decision;
use crate::standalone::rule::Rule;
use crate::standalone::watcher;
use crate::standalone::watcher::Change;
use crate::standalone::watcher::Line;
use crate::standalone::watcher::LineView;
use crate::standalone::watcher::Watcher;
use crate::standalone::watcher::WatcherView;
use crate::text;
use vstd::prelude::*;
use vstd::string::*;
use vstd::utf8::*;

verus! {

/// The engine.
pub struct Engine {
    pub rules: Vec<Rule>,
    pub watcher: Watcher,
    pub cooldowns: Ledger<Moment>,
}

/// The rules of an engine, what it has read and what it remembers.
#[verifier::ext_equal]
pub struct EngineView {
    pub rules: Seq<Rule>,
    pub watcher: WatcherView,
    pub cooldowns: Map<Seq<char>, Moment>,
}

impl View for Engine {
    type V = EngineView;

    open spec fn view(&self) -> EngineView {
        EngineView {
            rules: self.rules@,
            watcher: self.watcher@,
            cooldowns: self.cooldowns@,
        }
    }
}

/// What can happen to an engine.
pub enum Event {
    /// These rules have been taken into use.
    Loaded { rules: Seq<Rule> },
    /// The path leads to this file, and it is this long.
    Observed { identity: FileIdentity, len: nat },
    /// A piece of the log has been read at the moment `now`.
    Heard { piece: Seq<char>, now: Moment },
}

/// An engine that has met no incident yet and starts behind the `len` bytes that its log file holds
/// already.
pub open spec fn begun(rules: Seq<Rule>, identity: FileIdentity, len: nat) -> EngineView {
    EngineView {
        rules,
        watcher: WatcherView { position: len, identity },
        cooldowns: Map::empty(),
    }
}

/// An engine after something has happened. Only an incident changes what it remembers.
pub open spec fn after_event(e: EngineView, event: Event) -> EngineView {
    match event {
        Event::Loaded { rules } => EngineView { rules, ..e },
        Event::Observed { identity, len } => EngineView {
            watcher: watcher::observed(e.watcher, identity, len),
            ..e
        },
        Event::Heard { piece, now } => EngineView {
            watcher: watcher::read_on(e.watcher, piece),
            cooldowns: match watcher::classified(piece) {
                LineView::Incident(line) => incident::handled(
                    e.rules,
                    line,
                    now,
                    e.cooldowns,
                ).cooldowns,
                _ => e.cooldowns,
            },
            ..e
        },
    }
}

/// What to make of a piece of the log.
#[derive(Debug)]
pub enum Heard {
    /// The line is not finished: reading stops here for now.
    Unfinished,
    /// The line needs no attention.
    Quiet,
    /// The line tells of an incident.
    Incident(String, Decision),
}

impl Engine {
    /// An engine that has met no incident yet and starts behind what its log file holds already.
    pub fn new(rules: Vec<Rule>, identity: FileIdentity, len: u64) -> (r: Self)
        ensures
            r@ == begun(rules@, identity, len as nat),
    {
        Engine { rules, watcher: Watcher::new(identity, len), cooldowns: Ledger::new() }
    }

    /// Takes note of which file the path leads to and how long it is, and tells what has become
    /// of it and whether there is something to read.
    pub fn observe(&mut self, identity: FileIdentity, len: u64) -> (r: (Change, bool))
        ensures
            final(self)@ == after_event(
                old(self)@,
                Event::Observed { identity, len: len as nat },
            ),
            r.0 == watcher::change_seen(old(self)@.watcher, identity, len as nat),
            r.1 == (len > final(self)@.watcher.position),
    {
        self.watcher.observe(identity, len)
    }

    /// Takes in a piece of the log at the moment `now`, and decides what to do about an incident
    /// that it tells of.
    pub fn hear(&mut self, piece: &str, now: Moment) -> (r: Heard)
        requires
            old(self).watcher.position + piece.spec_bytes().len() <= u64::MAX,
        ensures
            final(self)@ == after_event(old(self)@, Event::Heard { piece: piece@, now }),
            match watcher::classified(piece@) {
                LineView::Unfinished => r is Unfinished,
                LineView::Quiet => r is Quiet,
                LineView::Incident(line) => r matches Heard::Incident(said, d) && said@ == line
                    && incident::decides(
                    d,
                    incident::handled(old(self)@.rules, line, now, old(self)@.cooldowns),
                    old(self)@.rules.len(),
                ),
            },
    {
        match self.watcher.take_line(piece) {
            Line::Unfinished => Heard::Unfinished,
            Line::Quiet => Heard::Quiet,
            Line::Incident(line) => {
                let decision = incident::process_incident(
                    self.rules.as_slice(),
                    line.as_str(),
                    &mut self.cooldowns,
                    now,
                );
                Heard::Incident(line, decision)
            },
        }
    }
}

/// An engine after a course of events.
pub open spec fn after_course(e: EngineView, course: Seq<Event>) -> EngineView
    decreases course.len(),
{
    if course.len() == 0 {
        e
    } else {
        after_event(after_course(e, course.drop_last()), course.last())
    }
}

/// The incidents that are taken up in a course of events.
pub open spec fn incidents_heard(e: EngineView, course: Seq<Event>) -> Seq<Arrival>
    decreases course.len(),
{
    if course.len() == 0 {
        Seq::empty()
    } else {
        let before = incidents_heard(e, course.drop_last());
        match course.last() {
            Event::Heard { piece, now } => match watcher::classified(piece) {
                LineView::Incident(line) => before.push(
                    Arrival {
                        rules: after_course(e, course.drop_last()).rules,
                        incident: line,
                        now,
                    },
                ),
                _ => before,
            },
            _ => before,
        }
    }
}

/// The texts of incidents.
pub open spec fn incident_texts(arrivals: Seq<Arrival>) -> Seq<Seq<char>> {
    arrivals.map_values(|a: Arrival| a.incident)
}

/// Those of the lines that tell of an incident.
pub open spec fn alarming_lines(lines: Seq<Seq<char>>) -> Seq<Seq<char>> {
    lines.filter(|line: Seq<char>| watcher::alarming(line))
}

/// Whether an engine can meet with an event where nothing happens to its log file but that it grows
/// until it holds `log`: a look shows that file, no shorter than what has been read; a piece is what
/// stands there next, with a line end nowhere but at its end; and rules may be loaded at any time.
pub open spec fn on_growing_log(
    e: EngineView,
    identity: FileIdentity,
    log: Seq<u8>,
    event: Event,
) -> bool {
    match event {
        Event::Loaded { rules } => true,
        Event::Observed { identity: seen, len } => seen == identity && e.watcher.position <= len
            <= log.len(),
        Event::Heard { piece, now } => lines::within_line(piece) && lines::stands_in_file(
            piece,
            log,
            e.watcher.position,
        ),
    }
}

/// Whether each event of a course is one that can be met while `log` grows.
pub open spec fn course_on_growing_log(
    e: EngineView,
    identity: FileIdentity,
    log: Seq<u8>,
    course: Seq<Event>,
) -> bool
    decreases course.len(),
{
    course.len() > 0 ==> {
        &&& course_on_growing_log(e, identity, log, course.drop_last())
        &&& on_growing_log(after_course(e, course.drop_last()), identity, log, course.last())
    }
}

proof fn lemma_blank_is_not_alarming(line: Seq<char>)
    requires
        line.len() == 0,
    ensures
        !watcher::alarming(line),
{
    reveal_strlit("[ERROR]");
    reveal_strlit("[CRITICAL]");
}

/// An engine follows a log that grows: nothing that the log held when the engine started is used,
/// and of what came after that the lines that have an end and tell of an incident are taken up,
/// each once and in order, however they were written and read. What has been read ends with a line
/// end, so that an unfinished line is read again.
pub proof fn law_new_incidents_are_taken_up_once(
    rules: Seq<Rule>,
    identity: FileIdentity,
    start: nat,
    log: Seq<u8>,
    course: Seq<Event>,
)
    requires
        start <= log.len(),
        course_on_growing_log(begun(rules, identity, start), identity, log, course),
    ensures
        ({
            let first = begun(rules, identity, start);
            let w = after_course(first, course).watcher;
            let read = log.subrange(start as int, w.position as int);
            &&& w.identity == identity
            &&& start <= w.position <= log.len()
            &&& valid_utf8(read)
            &&& lines::unfinished(decode_utf8(read)) == Seq::<char>::empty()
            &&& incident_texts(incidents_heard(first, course)) == alarming_lines(
                lines::finished_lines(decode_utf8(read)),
            )
        }),
    decreases course.len(),
{
    reveal(Seq::filter);
    let first = begun(rules, identity, start);
    if course.len() == 0 {
        let read = log.subrange(start as int, start as int);
        assert(read == Seq::<u8>::empty());
        assert(decode_utf8(read) == Seq::<char>::empty());
        assert(incident_texts(incidents_heard(first, course)) == Seq::<Seq<char>>::empty());
    } else {
        let before = course.drop_last();
        law_new_incidents_are_taken_up_once(rules, identity, start, log, before);
        let reached = after_course(first, before);
        if let Event::Heard { piece, now } = course.last() {
            if lines::ends_line(piece) {
                let before_it = decode_utf8(
                    log.subrange(start as int, reached.watcher.position as int),
                );
                lines::lemma_read_on(log, start, reached.watcher.position, piece);
                lines::lemma_further_piece(before_it, piece);
                assert(lines::unfinished(before_it) + piece == piece);
                let line = text::trimmed(piece);
                let arrivals = incidents_heard(first, before);
                let known = lines::finished_lines(before_it);
                if line.len() == 0 {
                    lemma_blank_is_not_alarming(line);
                } else {
                    assert(known.push(line).drop_last() == known);
                }
                if watcher::alarming(line) {
                    let a = Arrival { rules: reached.rules, incident: line, now };
                    assert(incident_texts(arrivals.push(a)) == incident_texts(arrivals).push(line));
                }
            }
        }
    }
}

/// What the engine remembers after a course of events is what the incidents leave behind that it
/// has taken up.
pub proof fn law_incidents_alone_are_remembered(
    rules: Seq<Rule>,
    identity: FileIdentity,
    start: nat,
    course: Seq<Event>,
)
    ensures
        ({
            let first = begun(rules, identity, start);
            after_course(first, course).cooldowns == incident::cooldowns_after(
                incidents_heard(first, course),
            )
        }),
    decreases course.len(),
{
    let first = begun(rules, identity, start);
    if course.len() > 0 {
        let before = course.drop_last();
        law_incidents_alone_are_remembered(rules, identity, start, before);
        let arrivals = incidents_heard(first, course);
        if let Event::Heard { piece, now } = course.last() {
            if watcher::classified(piece) is Incident {
                assert(arrivals.drop_last() == incidents_heard(first, before));
            }
        }
    }
}

/// Nothing but a line that tells of an incident changes what the engine remembers, and nothing but
/// loading changes its rules.
pub proof fn law_events_change_only_what_they_are_about(e: EngineView, event: Event)
    ensures
        event matches Event::Loaded { rules } ==> after_event(e, event).rules == rules,
        !(event is Loaded) ==> after_event(e, event).rules == e.rules,
        event is Loaded ==> after_event(e, event).watcher == e.watcher,
        !(event is Heard) ==> after_event(e, event).cooldowns == e.cooldowns,
        event matches Event::Observed { identity, len } ==> after_event(e, event).watcher
            == watcher::observed(e.watcher, identity, len),
        event matches Event::Heard { piece, now } ==> after_event(e, event).watcher
            == watcher::read_on(e.watcher, piece),
        event matches Event::Heard { piece, now } ==> (watcher::classified(
            piece,
        ) matches LineView::Incident(line) ==> after_event(e, event).cooldowns == incident::handled(
            e.rules,
            line,
            now,
            e.cooldowns,
        ).cooldowns),
        event matches Event::Heard { piece, now } ==> (!(watcher::classified(piece) is Incident)
            ==> after_event(e, event).cooldowns == e.cooldowns),
{
}

/// An engine starts with its rules, behind what the log holds, and remembers nothing. What it shows
/// is what it holds.
pub proof fn law_engines_start_afresh(
    rules: Seq<Rule>,
    identity: FileIdentity,
    len: nat,
    e: Engine,
)
    ensures
        begun(rules, identity, len).rules == rules,
        begun(rules, identity, len).watcher.position == len,
        begun(rules, identity, len).watcher.identity == identity,
        begun(rules, identity, len).cooldowns == Map::<Seq<char>, Moment>::empty(),
        e@.rules == e.rules@,
        e@.watcher == e.watcher@,
        e@.cooldowns == e.cooldowns@,
{
}

/// A piece of the log is answered by what it is: an unfinished line, which does not count as read; a
/// line that needs no attention; or an incident, with its text and with what is to be done about it.
pub proof fn law_engines_hear(e: &mut Engine, piece: &str, now: Moment, r: Heard)
    requires
        call_ensures(Engine::hear, (e, piece, now), r),
    ensures
        ({
            let what = watcher::classified(piece@);
            &&& final(e).rules@ == old(e).rules@
            &&& final(e).watcher@ == watcher::read_on(old(e).watcher@, piece@)
            &&& r is Unfinished <==> what is Unfinished
            &&& r is Quiet <==> what is Quiet
            &&& !(what is Incident) ==> final(e).cooldowns@ == old(e).cooldowns@
            &&& what matches LineView::Incident(line) ==> {
                let h = incident::handled(old(e).rules@, line, now, old(e).cooldowns@);
                &&& r matches Heard::Incident(said, d) && said@ == line && incident::decides(
                    d,
                    h,
                    old(e).rules@.len(),
                )
                &&& final(e).cooldowns@ == h.cooldowns
            }
        }),
{
}

/// A look at the file concerns what has been read and nothing else.
pub proof fn law_engines_look(
    e: &mut Engine,
    identity: FileIdentity,
    len: u64,
    seen: (Change, bool),
)
    requires
        call_ensures(Engine::observe, (e, identity, len), seen),
    ensures
        seen.0 is Rotated <==> identity != old(e).watcher.identity,
        seen.0 is Truncated <==> identity == old(e).watcher.identity && len < old(e).watcher.position,
        seen.0 is Same ==> final(e).watcher.position == old(e).watcher.position,
        !(seen.0 is Same) ==> final(e).watcher.position == 0,
        final(e).watcher.identity == identity,
        seen.1 <==> len > final(e).watcher.position,
        final(e).rules@ == old(e).rules@,
        final(e).cooldowns@ == old(e).cooldowns@,
{
}

/// An engine starts with the rules that it is given, behind what the log holds, and with an empty
/// table.
pub proof fn law_engines_start(rules: Vec<Rule>, identity: FileIdentity, len: u64, e: Engine)
    requires
        call_ensures(Engine::new, (rules, identity, len), e),
    ensures
        e.rules@ == rules@,
        e.watcher.position == len,
        e.watcher.identity == identity,
        e.cooldowns@ == Map::<Seq<char>, Moment>::empty(),
{
}

} // verus!
