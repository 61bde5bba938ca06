//! The engine as a whole: what it has been told, what it has read and what it remembers.

use crate::clock::Moment;
use crate::ledger::Ledger;
use crate::lines;
use crate::logs::FileIdentity;
use crate::managed::config::Config;
use crate::managed::incident;
use crate::managed::incident::Arrival;
use crate::managed::incident::Decision;
use crate::managed::incident::Memory;
use crate::managed::matching;
use crate::managed::rule::Rule;
use crate::managed::rules_file;
use crate::managed::rules_file::RuleLoadResult;
use crate::managed::watcher;
use crate::managed::watcher::Observation;
use crate::managed::watcher::Watcher;
use crate::managed::watcher::WatcherView;
use crate::text;
use vstd::prelude::*;
use vstd::string::*;
use vstd::utf8::*;

verus! {

/// The engine.
pub struct Engine {
    pub config: Config,
    pub rules: Vec<Rule>,
    pub watcher: Watcher,
    pub cooldowns: Ledger<Moment>,
    pub recovery_history: Ledger<Vec<Moment>>,
}

/// What an engine has been told, what it has read and what it remembers.
#[verifier::ext_equal]
pub struct EngineView {
    pub config: Config,
    pub rules: Seq<Rule>,
    pub watcher: WatcherView,
    pub memory: Memory,
}

impl View for Engine {
    type V = EngineView;

    open spec fn view(&self) -> EngineView {
        EngineView {
            config: self.config,
            rules: self.rules@,
            watcher: self.watcher@,
            memory: incident::memory(self.cooldowns, self.recovery_history),
        }
    }
}

/// What can happen to an engine.
pub enum Event {
    /// Rules have been loaded.
    Loaded { loaded: RuleLoadResult },
    /// The path leads to this file, and it is this long.
    Observed { identity: FileIdentity, len: nat },
    /// A further piece of the log has been read at the moment `now`.
    Heard { piece: Seq<char>, now: Moment },
}

/// An engine that has met no incident yet and starts behind the `len` bytes that its log file holds
/// already.
pub open spec fn begun(
    config: Config,
    rules: Seq<Rule>,
    identity: FileIdentity,
    len: nat,
) -> EngineView {
    EngineView {
        config,
        rules,
        watcher: watcher::started(identity, len),
        memory: Memory { cooldowns: Map::empty(), history: Map::empty() },
    }
}

/// The incident that a further piece of text completes, given the rules in use and what has been
/// read of an unfinished line.
pub open spec fn heard(rules: Seq<Rule>, partial: Seq<char>, piece: Seq<char>) -> Option<Seq<char>> {
    match watcher::completed(partial, piece) {
        Some(line) => if matching::incident(rules, line) {
            Some(line)
        } else {
            None
        },
        None => None,
    }
}

/// An engine after something has happened. Only an incident changes what it remembers.
pub open spec fn after_event(e: EngineView, event: Event) -> EngineView {
    match event {
        Event::Loaded { loaded } => if rules_file::accepted(loaded) {
            EngineView { rules: loaded.rules@, ..e }
        } else {
            e
        },
        Event::Observed { identity, len } => EngineView {
            watcher: watcher::observed(e.watcher, identity, len),
            ..e
        },
        Event::Heard { piece, now } => EngineView {
            watcher: watcher::fed(e.watcher, piece),
            memory: match heard(e.rules, e.watcher.partial, piece) {
                Some(line) => incident::handled(e.config, e.rules, line, now, e.memory).memory,
                None => e.memory,
            },
            ..e
        },
    }
}

impl Engine {
    /// An engine that has met no incident yet and starts behind what its log file holds already.
    pub fn new(config: Config, rules: Vec<Rule>, identity: FileIdentity, len: u64) -> (r: Self)
        ensures
            r@ == begun(config, rules@, identity, len as nat),
    {
        let e = Engine {
            config,
            rules,
            watcher: Watcher::new(identity, len),
            cooldowns: Ledger::new(),
            recovery_history: Ledger::new(),
        };
        assert(incident::stamps(e.recovery_history@) == Map::<Seq<char>, Seq<Moment>>::empty());
        e
    }

    /// Takes newly loaded rules into use where they came without an error. Says what is to be
    /// logged.
    pub fn reload(&mut self, loaded: RuleLoadResult) -> (r: String)
        ensures
            final(self)@ == after_event(old(self)@, Event::Loaded { loaded }),
            r@ == rules_file::reload_text(loaded),
    {
        let mut current: Vec<Rule> = Vec::new();
        std::mem::swap(&mut current, &mut self.rules);
        let (rules, line) = rules_file::accept_reload(current, loaded);
        self.rules = rules;
        line
    }

    /// Takes note of which file the path leads to and how long it is. Where it is another file
    /// than before, or shorter than what has been read, reading starts anew.
    pub fn observe(&mut self, identity: FileIdentity, len: u64) -> (r: Observation)
        ensures
            final(self)@ == after_event(
                old(self)@,
                Event::Observed { identity, len: len as nat },
            ),
            r.reset == watcher::replaced(old(self)@.watcher, identity, len as nat),
            r.read == (len > final(self)@.watcher.position),
    {
        self.watcher.observe(identity, len)
    }

    /// Takes in a further piece of the log at the moment `now`. Where it completes a line that
    /// tells of an incident, returns that line and what to do about it.
    pub fn hear(&mut self, piece: &str, now: Moment) -> (r: Option<(String, Decision)>)
        requires
            old(self).watcher.position + piece.spec_bytes().len() <= u64::MAX,
        ensures
            final(self)@ == after_event(old(self)@, Event::Heard { piece: piece@, now }),
            match heard(old(self)@.rules, old(self)@.watcher.partial, piece@) {
                Some(line) => r matches Some((said, d)) && said@ == line && incident::decides(
                    d,
                    incident::handled(
                        old(self)@.config,
                        old(self)@.rules,
                        line,
                        now,
                        old(self)@.memory,
                    ),
                    old(self)@.rules.len(),
                ),
                None => r is None,
            },
    {
        let line = match self.watcher.feed(piece) {
            Some(line) => line,
            None => return None,
        };
        if !matching::looks_like_incident(line.as_str(), self.rules.as_slice()) {
            return None;
        }
        let decision = incident::process_incident(
            &self.config,
            self.rules.as_slice(),
            line.as_str(),
            &mut self.cooldowns,
            &mut self.recovery_history,
            now,
        );
        Some((line, decision))
    }
}

/// An engine after a course of events.
pub open spec fn after_course(e: EngineView, course: Seq<Event>) -> EngineView
    decreases course.len(),
{
    if course.len() == 0 {
        e
    } else {
        after_event(after_course(e, course.drop_last()), course.last())
    }
}

/// A line of the log that is judged: whether it tells of an incident, by the rules in use at that
/// moment.
pub struct Judged {
    pub rules: Seq<Rule>,
    pub line: Seq<char>,
    pub now: Moment,
}

/// The lines that are judged in a course of events.
pub open spec fn judged_lines(e: EngineView, course: Seq<Event>) -> Seq<Judged>
    decreases course.len(),
{
    if course.len() == 0 {
        Seq::empty()
    } else {
        let before = judged_lines(e, course.drop_last());
        let reached = after_course(e, course.drop_last());
        match course.last() {
            Event::Heard { piece, now } => match watcher::completed(
                reached.watcher.partial,
                piece,
            ) {
                Some(line) => before.push(Judged { rules: reached.rules, line, now }),
                None => before,
            },
            _ => before,
        }
    }
}

/// The incidents that are taken up in a course of events.
pub open spec fn incidents_heard(e: EngineView, course: Seq<Event>) -> Seq<Arrival>
    decreases course.len(),
{
    if course.len() == 0 {
        Seq::empty()
    } else {
        let before = incidents_heard(e, course.drop_last());
        let reached = after_course(e, course.drop_last());
        match course.last() {
            Event::Heard { piece, now } => match heard(
                reached.rules,
                reached.watcher.partial,
                piece,
            ) {
                Some(line) => before.push(Arrival { rules: reached.rules, incident: line, now }),
                None => before,
            },
            _ => before,
        }
    }
}

/// Whether an engine can meet with an event where nothing happens to its log file but that it grows
/// until it holds `log`: a look shows that file, no shorter than what has been read; a piece is what
/// stands there next, with a line end nowhere but at its end; and rules may be loaded at any time.
pub open spec fn on_growing_log(
    e: EngineView,
    identity: FileIdentity,
    log: Seq<u8>,
    event: Event,
) -> bool {
    match event {
        Event::Loaded { loaded } => true,
        Event::Observed { identity: seen, len } => seen == identity && e.watcher.position <= len
            <= log.len(),
        Event::Heard { piece, now } => lines::within_line(piece) && lines::stands_in_file(
            piece,
            log,
            e.watcher.position,
        ),
    }
}

/// Whether each event of a course is one that can be met while `log` grows.
pub open spec fn course_on_growing_log(
    e: EngineView,
    identity: FileIdentity,
    log: Seq<u8>,
    course: Seq<Event>,
) -> bool
    decreases course.len(),
{
    course.len() > 0 ==> {
        &&& course_on_growing_log(e, identity, log, course.drop_last())
        &&& on_growing_log(after_course(e, course.drop_last()), identity, log, course.last())
    }
}

/// The lines among those that are judged.
pub open spec fn texts_judged(judged: Seq<Judged>) -> Seq<Seq<char>> {
    judged.map_values(|j: Judged| j.line)
}

/// Those of the lines that are judged which tell of an incident.
pub open spec fn judged_incidents(judged: Seq<Judged>) -> Seq<Arrival> {
    judged.filter(|j: Judged| matching::incident(j.rules, j.line)).map_values(
        |j: Judged| Arrival { rules: j.rules, incident: j.line, now: j.now },
    )
}

/// An engine follows a log that grows: nothing that the log held when the engine started is used,
/// and of what came after that the lines that have an end and are not blank are judged, each once
/// and in order, however they were written and read; what stands behind the last line end waits.
pub proof fn law_new_lines_are_judged_once(
    config: Config,
    rules: Seq<Rule>,
    identity: FileIdentity,
    start: nat,
    log: Seq<u8>,
    course: Seq<Event>,
)
    requires
        start <= log.len(),
        course_on_growing_log(begun(config, rules, identity, start), identity, log, course),
    ensures
        ({
            let first = begun(config, rules, identity, start);
            let w = after_course(first, course).watcher;
            let read = log.subrange(start as int, w.position as int);
            &&& w.identity == identity
            &&& start <= w.position <= log.len()
            &&& valid_utf8(read)
            &&& texts_judged(judged_lines(first, course)) == lines::finished_lines(
                decode_utf8(read),
            )
            &&& w.partial == lines::unfinished(decode_utf8(read))
        }),
    decreases course.len(),
{
    let first = begun(config, rules, identity, start);
    if course.len() == 0 {
        let read = log.subrange(start as int, start as int);
        assert(read == Seq::<u8>::empty());
        assert(decode_utf8(read) == Seq::<char>::empty());
        assert(texts_judged(judged_lines(first, course)) == Seq::<Seq<char>>::empty());
    } else {
        let before = course.drop_last();
        law_new_lines_are_judged_once(config, rules, identity, start, log, before);
        let reached = after_course(first, before);
        if let Event::Heard { piece, now } = course.last() {
            let read = log.subrange(start as int, reached.watcher.position as int);
            lines::lemma_read_on(log, start, reached.watcher.position, piece);
            watcher::lemma_fed(decode_utf8(read), piece);
            let judged = judged_lines(first, before);
            if let Some(line) = watcher::completed(reached.watcher.partial, piece) {
                let j = Judged { rules: reached.rules, line, now };
                assert(texts_judged(judged.push(j)) == texts_judged(judged).push(line));
            }
        }
    }
}

/// Of the lines that are judged those that tell of an incident are taken up, and no others. What
/// the engine remembers is what those incidents leave behind.
pub proof fn law_judged_incidents_are_taken_up(
    config: Config,
    rules: Seq<Rule>,
    identity: FileIdentity,
    start: nat,
    course: Seq<Event>,
)
    ensures
        ({
            let first = begun(config, rules, identity, start);
            &&& incidents_heard(first, course) == judged_incidents(judged_lines(first, course))
            &&& after_course(first, course).config == config
            &&& after_course(first, course).memory == incident::memory_after(
                config,
                incidents_heard(first, course),
            )
        }),
    decreases course.len(),
{
    reveal(Seq::filter);
    let first = begun(config, rules, identity, start);
    let p = |j: Judged| matching::incident(j.rules, j.line);
    let f = |j: Judged| Arrival { rules: j.rules, incident: j.line, now: j.now };
    if course.len() == 0 {
        assert(judged_incidents(judged_lines(first, course)) == Seq::<Arrival>::empty());
    } else {
        let before = course.drop_last();
        law_judged_incidents_are_taken_up(config, rules, identity, start, before);
        let reached = after_course(first, before);
        let judged = judged_lines(first, before);
        if let Event::Heard { piece, now } = course.last() {
            if let Some(line) = watcher::completed(reached.watcher.partial, piece) {
                let j = Judged { rules: reached.rules, line, now };
                assert(judged.push(j).drop_last() == judged);
                assert(judged.filter(p).push(j).map_values(f) == judged.filter(p).map_values(
                    f,
                ).push(f(j)));
                let arrivals = incidents_heard(first, course);
                if p(j) {
                    assert(arrivals.drop_last() == incidents_heard(first, before));
                }
            }
        }
    }
}

/// Nothing but a line that completes and tells of an incident changes what the engine remembers,
/// nothing but an accepted reload changes its rules, and its settings never change.
pub proof fn law_events_change_only_what_they_are_about(e: EngineView, event: Event)
    ensures
        after_event(e, event).config == e.config,
        !(event is Loaded) ==> after_event(e, event).rules == e.rules,
        !(event is Heard) ==> after_event(e, event).memory == e.memory,
        event is Loaded ==> after_event(e, event).watcher == e.watcher,
        event matches Event::Loaded { loaded } ==> after_event(e, event).rules == (if loaded.errors
            == 0 && loaded.files_found > 0 {
            loaded.rules@
        } else {
            e.rules
        }),
        event matches Event::Observed { identity, len } ==> after_event(e, event).watcher
            == watcher::observed(e.watcher, identity, len),
        event matches Event::Heard { piece, now } ==> after_event(e, event).watcher == watcher::fed(
            e.watcher,
            piece,
        ),
{
}

/// A piece of the log is acted on exactly when it completes a line that tells of an incident, and
/// then as for that incident at that moment, with the rules in use and what is remembered.
pub proof fn law_incidents_are_acted_on(e: EngineView, piece: Seq<char>, now: Moment)
    ensures
        heard(e.rules, e.watcher.partial, piece) is Some <==> watcher::completed(
            e.watcher.partial,
            piece,
        ) is Some && matching::incident(
            e.rules,
            watcher::completed(e.watcher.partial, piece)->0,
        ),
        heard(e.rules, e.watcher.partial, piece) is Some ==> heard(
            e.rules,
            e.watcher.partial,
            piece,
        ) == watcher::completed(e.watcher.partial, piece) && after_event(
            e,
            Event::Heard { piece, now },
        ).memory == incident::handled(
            e.config,
            e.rules,
            watcher::completed(e.watcher.partial, piece)->0,
            now,
            e.memory,
        ).memory,
        heard(e.rules, e.watcher.partial, piece) is None ==> after_event(
            e,
            Event::Heard { piece, now },
        ).memory == e.memory,
{
}

/// An engine starts with its settings and rules, behind what the log holds, and remembers nothing.
/// What it shows is what it holds.
pub proof fn law_engines_start_afresh(
    config: Config,
    rules: Seq<Rule>,
    identity: FileIdentity,
    len: nat,
    e: Engine,
)
    ensures
        begun(config, rules, identity, len).config == config,
        begun(config, rules, identity, len).rules == rules,
        begun(config, rules, identity, len).watcher.position == len,
        begun(config, rules, identity, len).watcher.identity == identity,
        begun(config, rules, identity, len).watcher.partial == Seq::<char>::empty(),
        begun(config, rules, identity, len).memory.cooldowns == Map::<Seq<char>, Moment>::empty(),
        begun(config, rules, identity, len).memory.history == Map::<
            Seq<char>,
            Seq<Moment>,
        >::empty(),
        e@.config == e.config,
        e@.rules == e.rules@,
        e@.watcher == e.watcher@,
        e@.memory == incident::memory(e.cooldowns, e.recovery_history),
{
}

/// A piece of the log is read on by all its bytes, and is answered exactly when it completes a line
/// that tells of an incident: with that line and with what is to be done about it, by the settings
/// and rules in use and what is remembered. Settings and rules stay.
pub proof fn law_engines_hear(
    e: &mut Engine,
    piece: &str,
    now: Moment,
    r: Option<(String, Decision)>,
)
    requires
        call_ensures(Engine::hear, (e, piece, now), r),
    ensures
        ({
            let line = watcher::completed(old(e).watcher.partial@, piece@);
            let m = incident::memory(old(e).cooldowns, old(e).recovery_history);
            let after = incident::memory(final(e).cooldowns, final(e).recovery_history);
            let acted = line is Some && matching::incident(old(e).rules@, line->0);
            let h = incident::handled(old(e).config, old(e).rules@, line->0, now, m);
            &&& final(e).config == old(e).config
            &&& final(e).rules@ == old(e).rules@
            &&& final(e).watcher.position == old(e).watcher.position + piece.spec_bytes().len()
            &&& final(e).watcher.identity == old(e).watcher.identity
            &&& final(e).watcher.partial@ == watcher::partial_after(
                old(e).watcher.partial@,
                piece@,
            )
            &&& r is Some <==> acted
            &&& acted ==> (r matches Some((said, d)) && said@ == line->0 && incident::decides(
                d,
                h,
                old(e).rules@.len(),
            )) && after == h.memory
            &&& !acted ==> after == m
        }),
{
}

/// A look at the file concerns what has been read, and a reload the rules; nothing else changes.
pub proof fn law_engines_look_and_reload(
    looking: &mut Engine,
    identity: FileIdentity,
    len: u64,
    seen: Observation,
    reloading: &mut Engine,
    loaded: RuleLoadResult,
    line: String,
)
    requires
        call_ensures(Engine::observe, (looking, identity, len), seen),
        call_ensures(Engine::reload, (reloading, loaded), line),
    ensures
        seen.reset <==> identity != old(looking).watcher.identity || len < old(looking).watcher.position,
        seen.read <==> len > final(looking).watcher.position,
        seen.reset ==> final(looking).watcher.position == 0 && final(looking).watcher.partial@.len()
            == 0,
        !seen.reset ==> final(looking).watcher.position == old(looking).watcher.position && final(looking).watcher.partial@ == old(looking).watcher.partial@,
        final(looking).watcher.identity == identity,
        final(looking).config == old(looking).config,
        final(looking).rules@ == old(looking).rules@,
        incident::memory(final(looking).cooldowns, final(looking).recovery_history)
            == incident::memory(old(looking).cooldowns, old(looking).recovery_history),
        loaded.errors == 0 && loaded.files_found > 0 ==> final(reloading).rules@ == loaded.rules@,
        loaded.errors > 0 || loaded.files_found == 0 ==> final(reloading).rules@ == old(reloading).rules@,
        final(reloading).config == old(reloading).config,
        final(reloading).watcher@ == old(reloading).watcher@,
        incident::memory(final(reloading).cooldowns, final(reloading).recovery_history)
            == incident::memory(old(reloading).cooldowns, old(reloading).recovery_history),
        line@ == rules_file::reload_text(loaded),
{
}

/// An engine starts with the settings and rules that it is given, behind what the log holds, and
/// with empty tables.
pub proof fn law_engines_start(
    config: Config,
    rules: Vec<Rule>,
    identity: FileIdentity,
    len: u64,
    e: Engine,
)
    requires
        call_ensures(Engine::new, (config, rules, identity, len), e),
    ensures
        e.config == config,
        e.rules@ == rules@,
        e.watcher.position == len,
        e.watcher.identity == identity,
        e.watcher.partial@.len() == 0,
        e.cooldowns@ == Map::<Seq<char>, Moment>::empty(),
        forall|k: Seq<char>| !#[trigger] e.recovery_history@.contains_key(k),
{
    assert forall|k: Seq<char>| !#[trigger] e.recovery_history@.contains_key(k) by {
        assert(e@.memory.history.contains_key(k) <==> e.recovery_history@.contains_key(k));
    }
}

} // verus!
