//! What is done about an incident.

use crate::clock;
use crate::clock::Moment;
use crate::ledger;
use crate::ledger::Ledger;
use crate::standalone::matching;
use crate::standalone::rule::Rule;
use crate::text;
use crate::unicode;
use vstd::prelude::*;
use vstd::string::*;

verus! {

pub const INCIDENT_COOLDOWN_SECS: u64 = 30;

/// Under what an incident that a rule fits is remembered.
pub open spec fn incident_key(rule: Rule, incident: Seq<char>) -> Seq<char> {
    unicode::lowercase(rule.id@) + ":"@ + unicode::lowercase(incident)
}

/// Under what an incident that a rule fits is remembered.
pub fn make_incident_key(rule: &Rule, incident: &str) -> (r: String)
    ensures
        r@ == incident_key(*rule, incident@),
{
    rule.id.as_str().to_lowercase().concat(":").concat(incident.to_lowercase().as_str())
}

/// Forgets the incidents whose cooldown has run out at the moment `now`.
pub fn cleanup_cooldowns(cooldowns: &mut Ledger<Moment>, now: Moment)
    ensures
        final(cooldowns)@ == ledger::recent_entries(old(cooldowns)@, now, INCIDENT_COOLDOWN_SECS),
{
    cooldowns.retain_recent(now, INCIDENT_COOLDOWN_SECS);
}

/// The position of the rule to use for an incident.
pub open spec fn chosen(rules: Seq<Rule>, incident: Seq<char>) -> Option<int> {
    if exists|i: int| matching::best_for(rules, incident, i) {
        Some(choose|i: int| matching::best_for(rules, incident, i))
    } else {
        None
    }
}

/// What is done about an incident: the lines that are logged, the rule by which a recovery is
/// started, and the cooldowns afterwards.
pub struct Handling {
    pub lines: Seq<Seq<char>>,
    pub recover: Option<int>,
    pub cooldowns: Map<Seq<char>, Moment>,
}

/// What is done about an incident at the moment `now`: nothing where no rule can be used, or where
/// the same incident was met a short while ago; else a recovery by the rule to use.
pub open spec fn handled(
    rules: Seq<Rule>,
    incident: Seq<char>,
    now: Moment,
    cooldowns: Map<Seq<char>, Moment>,
) -> Handling {
    let cooling = ledger::recent_entries(cooldowns, now, INCIDENT_COOLDOWN_SECS);
    let detected = "[WATCHER] Incident detected: "@ + incident;
    match chosen(rules, incident) {
        None => Handling {
            lines: seq![
                detected,
                "[MATCH] No known remediation rule found"@,
                "[MANUAL ACTION] Unknown incident requires investigation"@,
            ],
            recover: None,
            cooldowns: cooling,
        },
        Some(i) => {
            let rule = rules[i];
            let key = incident_key(rule, incident);
            if cooling.contains_key(key) {
                Handling {
                    lines: seq![
                        detected,
                        "[COOLDOWN] Duplicate incident skipped for rule '"@ + rule.id@ + "'"@,
                    ],
                    recover: None,
                    cooldowns: cooling,
                }
            } else {
                Handling {
                    lines: seq![
                        detected,
                        "[MATCH] Rule: "@ + rule.name@,
                        "[MATCH] Confidence score: "@ + text::signed_decimal(
                            matching::rule_score(rule, incident)->0,
                        ),
                    ],
                    recover: Some(i),
                    cooldowns: cooling.insert(key, now),
                }
            }
        },
    }
}

/// What to do about an incident.
#[derive(Debug)]
pub struct Decision {
    /// The lines to log, in this order.
    pub lines: Vec<String>,
    /// The position of the rule by which to start a recovery after that.
    pub recover: Option<usize>,
}

/// Whether a decision is the one to carry out, where there are `n` rules.
pub open spec fn decides(d: Decision, h: Handling, n: nat) -> bool {
    &&& text::texts(d.lines@) == h.lines
    &&& match (d.recover, h.recover) {
        (Some(i), Some(j)) => i == j && i < n,
        (None, None) => true,
        _ => false,
    }
}

proof fn lemma_chosen(rules: Seq<Rule>, incident: Seq<char>)
    ensures
        forall|i: int|
            matching::best_for(rules, incident, i) ==> chosen(rules, incident) == Some(i),
        matching::no_rule_for(rules, incident) ==> chosen(rules, incident) is None,
{
    assert forall|i: int| matching::best_for(rules, incident, i) implies chosen(rules, incident)
        == Some(i) by {
        let c = choose|c: int| matching::best_for(rules, incident, c);
        matching::law_best_rule_is_unique(rules, incident, c, i);
    }
}

/// Decides what to do about an incident at the moment `now`, and remembers it.
pub fn process_incident(
    rules: &[Rule],
    incident: &str,
    cooldowns: &mut Ledger<Moment>,
    now: Moment,
) -> (r: Decision)
    ensures
        ({
            let h = handled(rules@, incident@, now, old(cooldowns)@);
            &&& decides(r, h, rules@.len())
            &&& final(cooldowns)@ == h.cooldowns
        }),
{
    broadcast use text::lemma_texts_push;

    let ghost h = handled(rules@, incident@, now, cooldowns@);
    cleanup_cooldowns(cooldowns, now);
    let mut lines: Vec<String> = Vec::new();
    assert(text::texts(lines@) == Seq::<Seq<char>>::empty());
    lines.push("[WATCHER] Incident detected: ".to_owned().concat(incident));
    proof {
        lemma_chosen(rules@, incident@);
    }
    let (i, score) = match matching::best_position(rules, incident) {
        Some(found) => found,
        None => {
            lines.push("[MATCH] No known remediation rule found".to_owned());
            lines.push("[MANUAL ACTION] Unknown incident requires investigation".to_owned());
            assert(text::texts(lines@) == h.lines);
            return Decision { lines, recover: None };
        },
    };
    let rule = &rules[i];
    let key = make_incident_key(rule, incident);
    if cooldowns.contains_key(key.as_str()) {
        lines.push(
            "[COOLDOWN] Duplicate incident skipped for rule '".to_owned().concat(
                rule.id.as_str(),
            ).concat("'"),
        );
        assert(text::texts(lines@) == h.lines);
        return Decision { lines, recover: None };
    }
    cooldowns.insert(key, now);
    lines.push("[MATCH] Rule: ".to_owned().concat(rule.name.as_str()));
    let points = text::signed_decimal_text(score);
    lines.push("[MATCH] Confidence score: ".to_owned().concat(points.as_str()));
    assert(text::texts(lines@) == h.lines);
    Decision { lines, recover: Some(i) }
}

/// What is logged when a recovery is over.
pub open spec fn conclusion(
    rule: Rule,
    outcome: Result<(), String>,
    elapsed: Seq<char>,
) -> Seq<Seq<char>> {
    match outcome {
        Ok(_) => seq!["[RESOLVED] Incident automatically recovered in "@ + elapsed],
        Err(e) => seq![
            "[RECOVERY FAILED] "@ + e@,
            "[MANUAL ACTION] Rule '"@ + rule.id@ + "' requires intervention"@,
        ],
    }
}

/// What is logged when a recovery is over. `elapsed` tells how long it has taken.
pub fn conclude(rule: &Rule, outcome: &Result<(), String>, elapsed: &str) -> (r: Vec<String>)
    ensures
        text::texts(r@) == conclusion(*rule, *outcome, elapsed@),
{
    match outcome {
        Ok(_) => {
            let lines = vec![
                "[RESOLVED] Incident automatically recovered in ".to_owned().concat(elapsed),
            ];
            assert(text::texts(lines@) == conclusion(*rule, *outcome, elapsed@));
            lines
        },
        Err(e) => {
            let lines = vec![
                "[RECOVERY FAILED] ".to_owned().concat(e.as_str()),
                "[MANUAL ACTION] Rule '".to_owned().concat(rule.id.as_str()).concat(
                    "' requires intervention",
                ),
            ];
            assert(text::texts(lines@) == conclusion(*rule, *outcome, elapsed@));
            lines
        },
    }
}

/// An incident that the engine meets: the rules in use, its text and its time.
pub struct Arrival {
    pub rules: Seq<Rule>,
    pub incident: Seq<char>,
    pub now: Moment,
}

/// Whether time does not run backwards.
pub open spec fn in_time_order(arrivals: Seq<Arrival>) -> bool {
    forall|i: int, j: int|
        0 <= i <= j < arrivals.len() ==> (#[trigger] arrivals[i]).now <= (#[trigger] arrivals[j]).now
}

/// The cooldowns after a course of incidents.
pub open spec fn cooldowns_after(arrivals: Seq<Arrival>) -> Map<Seq<char>, Moment>
    decreases arrivals.len(),
{
    if arrivals.len() == 0 {
        Map::empty()
    } else {
        let a = arrivals.last();
        handled(a.rules, a.incident, a.now, cooldowns_after(arrivals.drop_last())).cooldowns
    }
}

/// When recoveries were started that are remembered under `key`.
pub open spec fn recovery_starts(arrivals: Seq<Arrival>, key: Seq<char>) -> Seq<Moment>
    decreases arrivals.len(),
{
    if arrivals.len() == 0 {
        Seq::empty()
    } else {
        let before = recovery_starts(arrivals.drop_last(), key);
        let a = arrivals.last();
        match handled(
            a.rules,
            a.incident,
            a.now,
            cooldowns_after(arrivals.drop_last()),
        ).recover {
            Some(i) => if incident_key(a.rules[i], a.incident) == key {
                before.push(a.now)
            } else {
                before
            },
            None => before,
        }
    }
}

proof fn lemma_shorter_in_time_order(arrivals: Seq<Arrival>)
    requires
        in_time_order(arrivals),
        arrivals.len() > 0,
    ensures
        in_time_order(arrivals.drop_last()),
        arrivals.len() > 1 ==> arrivals.drop_last().last().now <= arrivals.last().now,
{
    let before = arrivals.drop_last();
    assert forall|i: int, j: int| 0 <= i <= j < before.len() implies (#[trigger] before[i]).now <= (
    #[trigger] before[j]).now by {
        assert(arrivals[i].now <= arrivals[j].now);
    }
    if before.len() > 0 {
        assert(arrivals[before.len() - 1].now <= arrivals[before.len() as int].now);
    }
}

/// The last start is remembered as long as its cooldown runs, and lies in the past.
proof fn lemma_last_start_is_remembered(arrivals: Seq<Arrival>, key: Seq<char>, now: Moment)
    requires
        in_time_order(arrivals),
        arrivals.len() > 0 ==> arrivals.last().now <= now,
        recovery_starts(arrivals, key).len() > 0,
    ensures
        recovery_starts(arrivals, key).last() <= now,
        clock::recent(now, recovery_starts(arrivals, key).last(), INCIDENT_COOLDOWN_SECS)
            ==> cooldowns_after(arrivals).contains_key(key) && cooldowns_after(arrivals)[key]
            == recovery_starts(arrivals, key).last(),
    decreases arrivals.len(),
{
    if arrivals.len() > 0 {
        let before = arrivals.drop_last();
        lemma_shorter_in_time_order(arrivals);
        if recovery_starts(arrivals, key) == recovery_starts(before, key) {
            lemma_last_start_is_remembered(before, key, arrivals.last().now);
        }
    }
}

/// Between two recoveries that are remembered under one key lie at least as many seconds as the
/// cooldown, whatever incidents come and however the rules change meanwhile.
pub proof fn law_cooldown_is_kept(arrivals: Seq<Arrival>, key: Seq<char>, i: int, j: int)
    requires
        in_time_order(arrivals),
        0 <= i < j < recovery_starts(arrivals, key).len(),
    ensures
        recovery_starts(arrivals, key)[j] - recovery_starts(arrivals, key)[i] >= clock::nanos(
            INCIDENT_COOLDOWN_SECS,
        ),
    decreases arrivals.len(),
{
    if arrivals.len() > 0 {
        let before = arrivals.drop_last();
        let a = arrivals.last();
        lemma_shorter_in_time_order(arrivals);
        let old_starts = recovery_starts(before, key);
        let all = recovery_starts(arrivals, key);
        if j < old_starts.len() {
            law_cooldown_is_kept(before, key, i, j);
        } else {
            assert(all == old_starts.push(a.now));
            lemma_last_start_is_remembered(before, key, a.now);
            assert(old_starts.last() == old_starts[old_starts.len() - 1]);
            if i < old_starts.len() - 1 {
                law_cooldown_is_kept(before, key, i, old_starts.len() - 1);
            }
        }
    }
}

/// The rule to use is the best one, and there is none only where no rule has a score of at least 60.
pub proof fn law_best_rule_is_chosen(rules: Seq<Rule>, incident: Seq<char>, i: int)
    ensures
        chosen(rules, incident) == Some(i) <==> matching::best_for(rules, incident, i),
        chosen(rules, incident) is None <==> forall|j: int|
            0 <= j < rules.len() && matching::rule_score(#[trigger] rules[j], incident) is Some
                ==> matching::rule_score(rules[j], incident)->0 < 60,
{
    lemma_chosen(rules, incident);
    matching::law_some_rule_is_best(rules, incident);
}

/// An incident is remembered by the id of the rule and its own text, letter case aside.
pub proof fn law_incidents_are_told_apart(rule: &Rule, incident: &str, r: String)
    requires
        call_ensures(make_incident_key, (rule, incident), r),
    ensures
        r@ == unicode::lowercase(rule.id@) + seq![':'] + unicode::lowercase(incident@),
        r@ == incident_key(*rule, incident@),
{
    reveal_strlit(":");
    assert(":"@ == seq![':']);
}

/// A recovery is started whenever there is a rule to use and the same incident has not been met with
/// that rule within the last 30 seconds. The incident is then remembered.
pub proof fn law_recoveries_are_started(
    rules: Seq<Rule>,
    incident: Seq<char>,
    now: Moment,
    cooldowns: Map<Seq<char>, Moment>,
    i: int,
)
    requires
        chosen(rules, incident) == Some(i),
        !(cooldowns.contains_key(incident_key(rules[i], incident)) && clock::recent(
            now,
            cooldowns[incident_key(rules[i], incident)],
            30,
        )),
    ensures
        ({
            let h = handled(rules, incident, now, cooldowns);
            let key = incident_key(rules[i], incident);
            &&& h.recover == Some(i)
            &&& h.cooldowns.contains_key(key) && h.cooldowns[key] == now
            &&& h.lines == seq![
                "[WATCHER] Incident detected: "@ + incident,
                "[MATCH] Rule: "@ + rules[i].name@,
                "[MATCH] Confidence score: "@ + text::signed_decimal(
                    matching::rule_score(rules[i], incident)->0,
                ),
            ]
        }),
{
}

/// The same incident within 30 seconds, met with the same rule, starts nothing.
pub proof fn law_repeated_incidents_are_skipped(
    rules: Seq<Rule>,
    incident: Seq<char>,
    now: Moment,
    cooldowns: Map<Seq<char>, Moment>,
    i: int,
)
    requires
        chosen(rules, incident) == Some(i),
        cooldowns.contains_key(incident_key(rules[i], incident)),
        clock::recent(now, cooldowns[incident_key(rules[i], incident)], 30),
    ensures
        ({
            let h = handled(rules, incident, now, cooldowns);
            let key = incident_key(rules[i], incident);
            &&& h.recover is None
            &&& h.cooldowns.contains_key(key) && h.cooldowns[key] == cooldowns[key]
            &&& h.lines == seq![
                "[WATCHER] Incident detected: "@ + incident,
                "[COOLDOWN] Duplicate incident skipped for rule '"@ + rules[i].id@ + "'"@,
            ]
        }),
{
}

/// An incident for which no rule has a score of at least 60 is left to people.
pub proof fn law_unknown_incidents_are_left_to_people(
    rules: Seq<Rule>,
    incident: Seq<char>,
    now: Moment,
    cooldowns: Map<Seq<char>, Moment>,
)
    requires
        forall|j: int|
            0 <= j < rules.len() && matching::rule_score(#[trigger] rules[j], incident) is Some
                ==> matching::rule_score(rules[j], incident)->0 < 60,
    ensures
        handled(rules, incident, now, cooldowns).recover is None,
        handled(rules, incident, now, cooldowns).lines == seq![
            "[WATCHER] Incident detected: "@ + incident,
            "[MATCH] No known remediation rule found"@,
            "[MANUAL ACTION] Unknown incident requires investigation"@,
        ],
{
    law_best_rule_is_chosen(rules, incident, 0);
}

/// What is remembered of other incidents stays for 30 seconds, and no longer, whatever is done about
/// this one.
pub proof fn law_other_incidents_are_unaffected(
    rules: Seq<Rule>,
    incident: Seq<char>,
    now: Moment,
    cooldowns: Map<Seq<char>, Moment>,
    key: Seq<char>,
)
    requires
        chosen(rules, incident) matches Some(i) ==> key != incident_key(rules[i], incident),
    ensures
        handled(rules, incident, now, cooldowns).cooldowns.contains_key(key)
            <==> cooldowns.contains_key(key) && clock::recent(now, cooldowns[key], 30),
        handled(rules, incident, now, cooldowns).cooldowns.contains_key(key) ==> handled(
            rules,
            incident,
            now,
            cooldowns,
        ).cooldowns[key] == cooldowns[key],
{
}

/// A decision carries out what is to be done: the same lines, and a recovery by the same rule or
/// none.
pub proof fn law_decisions_are_carried_out(d: Decision, h: Handling, n: nat)
    requires
        decides(d, h, n),
    ensures
        d.lines@.len() == h.lines.len(),
        forall|i: int| 0 <= i < h.lines.len() ==> (#[trigger] d.lines@[i])@ == h.lines[i],
        h.recover is None ==> d.recover is None,
        h.recover matches Some(i) ==> (d.recover matches Some(k) && k == i && k < n),
{
    assert(text::texts(d.lines@).len() == d.lines@.len());
    assert forall|i: int| 0 <= i < h.lines.len() implies (#[trigger] d.lines@[i])@ == h.lines[i] by {
        assert(text::texts(d.lines@)[i] == d.lines@[i]@);
    }
}

/// A recovery that went well is logged with its duration; one that failed, with the reason and a
/// call for help.
pub proof fn law_conclusions(
    rule: &Rule,
    outcome: &Result<(), String>,
    elapsed: &str,
    r: Vec<String>,
)
    requires
        call_ensures(conclude, (rule, outcome, elapsed), r),
    ensures
        outcome is Ok ==> r@.len() == 1 && r@[0]@
            == "[RESOLVED] Incident automatically recovered in "@ + elapsed@,
        *outcome matches Err(e) ==> r@.len() == 2 && r@[0]@ == "[RECOVERY FAILED] "@ + e@ && r@[1]@
            == "[MANUAL ACTION] Rule '"@ + rule.id@ + "' requires intervention"@,
{
    assert(text::texts(r@).len() == r@.len());
    assert(text::texts(r@)[0] == r@[0]@);
    if outcome is Err {
        assert(text::texts(r@)[1] == r@[1]@);
    }
}

/// An incident starts a recovery exactly when it may: by the best rule for it, where the same
/// incident has not been met with that rule within the last 30 seconds.
pub proof fn law_incidents_start_recoveries(
    rules: &[Rule],
    incident: &str,
    cooldowns: &mut Ledger<Moment>,
    now: Moment,
    r: Decision,
    i: int,
)
    requires
        call_ensures(process_incident, (rules, incident, cooldowns, now), r),
        0 <= i < rules@.len(),
    ensures
        ({
            let key = unicode::lowercase(rules@[i].id@) + ":"@ + unicode::lowercase(incident@);
            let met = old(cooldowns)@.contains_key(key) && clock::recent(
                now,
                old(cooldowns)@[key],
                30,
            );
            &&& (r.recover matches Some(k) && k == i) <==> matching::best_for(
                rules@,
                incident@,
                i,
            ) && !met
            &&& matching::best_for(rules@, incident@, i) && !met ==> final(cooldowns)@.contains_key(
                key,
            ) && final(cooldowns)@[key] == now
            &&& matching::best_for(rules@, incident@, i) && met ==> final(cooldowns)@.contains_key(
                key,
            ) && final(cooldowns)@[key] == old(cooldowns)@[key]
        }),
{
    law_best_rule_is_chosen(rules@, incident@, i);
    if let Some(k) = chosen(rules@, incident@) {
        law_best_rule_is_chosen(rules@, incident@, k);
    }
}

/// What an incident does is what is to be done about it, with what was remembered before, and leaves
/// behind what is to be remembered after it.
pub proof fn law_incidents_are_handled(
    rules: &[Rule],
    incident: &str,
    cooldowns: &mut Ledger<Moment>,
    now: Moment,
    r: Decision,
)
    requires
        call_ensures(process_incident, (rules, incident, cooldowns, now), r),
    ensures
        ({
            let h = handled(rules@, incident@, now, old(cooldowns)@);
            &&& text::texts(r.lines@) == h.lines
            &&& h.recover is None ==> r.recover is None
            &&& h.recover matches Some(i) ==> (r.recover matches Some(k) && k == i)
            &&& final(cooldowns)@ == h.cooldowns
        }),
{
}

/// An incident is forgotten after 30 seconds, and not before.
pub proof fn law_incidents_are_forgotten(cooldowns: &mut Ledger<Moment>, now: Moment, key: Seq<char>)
    requires
        call_ensures(cleanup_cooldowns, (cooldowns, now), ()),
    ensures
        final(cooldowns)@.contains_key(key) <==> old(cooldowns)@.contains_key(key) && clock::recent(
            now,
            old(cooldowns)@[key],
            30,
        ),
        final(cooldowns)@.contains_key(key) ==> final(cooldowns)@[key] == old(cooldowns)@[key],
{
}

} // verus!
