//! What is done about an incident.

use crate::clock;
use crate::clock::Moment;
use crate::ledger;
use crate::ledger::Ledger;
use crate::managed::alert;
use crate::managed::alert::Effect;
use crate::managed::alert::EffectView;
use crate::managed::config::Config;
use crate::managed::matching;
use crate::managed::rule::Remediation;
use crate::managed::rule::Rule;
use crate::text;
use crate::unicode;
use vstd::prelude::*;
use vstd::string::*;

verus! {

/// What the engine remembers of earlier incidents: when each rule was last used, and when
/// recoveries were started by it.
#[verifier::ext_equal]
pub struct Memory {
    pub cooldowns: Map<Seq<char>, Moment>,
    pub history: Map<Seq<char>, Seq<Moment>>,
}

/// The start times in a table of lists.
pub open spec fn stamps(history: Map<Seq<char>, Vec<Moment>>) -> Map<Seq<char>, Seq<Moment>> {
    Map::new(|k: Seq<char>| history.contains_key(k), |k: Seq<char>| history[k]@)
}

/// What the two tables hold.
pub open spec fn memory(cooldowns: Ledger<Moment>, history: Ledger<Vec<Moment>>) -> Memory {
    Memory { cooldowns: cooldowns@, history: stamps(history@) }
}

/// What is done about an incident: the effects, the rule by which a recovery is started, and what
/// is remembered afterwards.
pub struct Handling {
    pub effects: Seq<EffectView>,
    pub recover: Option<int>,
    pub memory: Memory,
}

/// The position of the rule to use for an incident.
pub open spec fn chosen(rules: Seq<Rule>, incident: Seq<char>) -> Option<int> {
    if exists|i: int| matching::best_for(rules, incident, i) {
        Some(choose|i: int| matching::best_for(rules, incident, i))
    } else {
        None
    }
}

/// Under what a rule is remembered.
pub open spec fn memory_key(rule: Rule) -> Seq<char> {
    unicode::lowercase(rule.id@)
}

/// The start times that are remembered under `key`.
pub open spec fn history_of(history: Map<Seq<char>, Seq<Moment>>, key: Seq<char>) -> Seq<Moment> {
    if history.contains_key(key) {
        history[key]
    } else {
        Seq::empty()
    }
}

/// Those of the moments that are fewer than `secs` seconds before `now`.
pub open spec fn recent_stamps(s: Seq<Moment>, now: Moment, secs: u64) -> Seq<Moment> {
    s.filter(|t: Moment| clock::recent(now, t, secs))
}

/// The line that tells of the rule to use.
pub open spec fn match_line(rule: Rule, incident: Seq<char>) -> Seq<char> {
    "[MATCH] "@ + rule.name@ + " | severity="@ + rule.severity@ + " | score="@
        + text::signed_decimal(matching::rule_score(rule, incident)->0)
}

/// What is told where a rule has started too many recoveries.
pub open spec fn limit_body(config: Config, incident: Seq<char>) -> Seq<char> {
    "Recovery stopped after "@ + text::decimal(config.max_recovery_attempts as nat)
        + " attempts in "@ + text::decimal(config.recovery_window_secs as nat)
        + " seconds. Incident: "@ + incident
}

/// What is done about an incident for which `rules[i]` is to be used: nothing while the rule cools
/// down; else an alert where the rule asks for no more, or where it has started as many
/// recoveries within the window as it may; else a recovery.
pub open spec fn handled_by(
    config: Config,
    rules: Seq<Rule>,
    i: int,
    incident: Seq<char>,
    now: Moment,
    m: Memory,
) -> Handling {
    let rule = rules[i];
    let key = memory_key(rule);
    let detected = seq![EffectView::Incident("[DETECTED] "@ + incident)];
    let cooling = ledger::recent_entries(m.cooldowns, now, config.incident_cooldown_secs);
    if cooling.contains_key(key) {
        Handling {
            effects: detected.push(
                EffectView::Incident("[COOLDOWN] Rule '"@ + rule.id@ + "' skipped"@),
            ),
            recover: None,
            memory: Memory { cooldowns: cooling, history: m.history },
        }
    } else {
        let matched = detected.push(EffectView::Incident(match_line(rule, incident)));
        let cooldowns = cooling.insert(key, now);
        if rule.remediation is AlertOnly {
            Handling {
                effects: matched + alert::alert_effects(
                    config,
                    "Aegira alert-only rule: "@ + rule.name@,
                    incident,
                ),
                recover: None,
                memory: Memory { cooldowns, history: m.history },
            }
        } else {
            let earlier = recent_stamps(
                history_of(m.history, key),
                now,
                config.recovery_window_secs,
            );
            if earlier.len() >= config.max_recovery_attempts {
                Handling {
                    effects: matched + alert::alert_effects(
                        config,
                        "Aegira recovery limit exceeded: "@ + rule.name@,
                        limit_body(config, incident),
                    ),
                    recover: None,
                    memory: Memory { cooldowns, history: m.history.insert(key, earlier) },
                }
            } else {
                Handling {
                    effects: matched,
                    recover: Some(i),
                    memory: Memory {
                        cooldowns,
                        history: m.history.insert(key, earlier.push(now)),
                    },
                }
            }
        }
    }
}

/// What is done about an incident. One for which no rule can be used leads to an alert.
pub open spec fn handled(
    config: Config,
    rules: Seq<Rule>,
    incident: Seq<char>,
    now: Moment,
    m: Memory,
) -> Handling {
    match chosen(rules, incident) {
        None => Handling {
            effects: seq![EffectView::Incident("[DETECTED] "@ + incident)] + alert::alert_effects(
                config,
                "Aegira: unknown incident"@,
                "No active rule matched: "@ + incident,
            ),
            recover: None,
            memory: m,
        },
        Some(i) => handled_by(config, rules, i, incident, now, m),
    }
}

/// What to do about an incident.
#[derive(Debug)]
pub struct Decision {
    /// What to do, in this order.
    pub effects: Vec<Effect>,
    /// The position of the rule by which to start a recovery after that.
    pub recover: Option<usize>,
}

/// Whether a decision is the one to carry out, where there are `n` rules.
pub open spec fn decides(d: Decision, h: Handling, n: nat) -> bool {
    &&& alert::shown(d.effects@) == h.effects
    &&& match (d.recover, h.recover) {
        (Some(i), Some(j)) => i == j && i < n,
        (None, None) => true,
        _ => false,
    }
}

/// Keeps those of the moments that are fewer than `secs` seconds before `now`.
fn retain_recent(s: Vec<Moment>, now: Moment, secs: u64) -> (r: Vec<Moment>)
    ensures
        r@ == recent_stamps(s@, now, secs),
{
    let mut kept: Vec<Moment> = Vec::new();
    proof {
        reveal(Seq::filter);
    }
    for i in 0..s.len()
        invariant
            kept@ == recent_stamps(s@.take(i as int), now, secs),
    {
        proof {
            reveal(Seq::filter);
        }
        assert(s@.take(i + 1).drop_last() == s@.take(i as int));
        if clock::is_recent(now, s[i], secs) {
            kept.push(s[i]);
        }
    }
    assert(s@.take(s@.len() as int) == s@);
    kept
}

proof fn lemma_chosen(rules: Seq<Rule>, incident: Seq<char>)
    ensures
        forall|i: int|
            matching::best_for(rules, incident, i) ==> chosen(rules, incident) == Some(i),
        matching::no_rule_for(rules, incident) ==> chosen(rules, incident) is None,
{
    assert forall|i: int| matching::best_for(rules, incident, i) implies chosen(rules, incident)
        == Some(i) by {
        let c = choose|c: int| matching::best_for(rules, incident, c);
        matching::law_best_rule_is_unique(rules, matching::rule_scores(rules, incident), c, i);
    }
}

/// Decides what to do about an incident at the moment `now`, and remembers it.
pub fn process_incident(
    config: &Config,
    rules: &[Rule],
    incident: &str,
    cooldowns: &mut Ledger<Moment>,
    recovery_history: &mut Ledger<Vec<Moment>>,
    now: Moment,
) -> (r: Decision)
    ensures
        ({
            let h = handled(
                *config,
                rules@,
                incident@,
                now,
                memory(*old(cooldowns), *old(recovery_history)),
            );
            &&& decides(r, h, rules@.len())
            &&& memory(*final(cooldowns), *final(recovery_history)) == h.memory
        }),
{
    broadcast use {alert::lemma_shown_push, alert::lemma_shown_add};

    let ghost m = memory(*cooldowns, *recovery_history);
    let ghost h = handled(*config, rules@, incident@, now, m);
    let mut effects: Vec<Effect> = Vec::new();
    effects.push(Effect::Incident("[DETECTED] ".to_owned().concat(incident)));
    proof {
        lemma_chosen(rules@, incident@);
        assert(alert::shown(effects@) == seq![EffectView::Incident("[DETECTED] "@ + incident@)]);
    }
    let (i, match_score) = match matching::best_position(rules, incident) {
        Some(found) => found,
        None => {
            let body = "No active rule matched: ".to_owned().concat(incident);
            let mut alarm = alert::alert(config, "Aegira: unknown incident", body.as_str());
            effects.append(&mut alarm);
            return Decision { effects, recover: None };
        },
    };
    let rule = &rules[i];
    let key = rule.id.as_str().to_lowercase();
    cooldowns.retain_recent(now, config.incident_cooldown_secs);
    if cooldowns.contains_key(key.as_str()) {
        effects.push(
            Effect::Incident(
                "[COOLDOWN] Rule '".to_owned().concat(rule.id.as_str()).concat("' skipped"),
            ),
        );
        return Decision { effects, recover: None };
    }
    cooldowns.insert(key.clone(), now);
    let points = text::signed_decimal_text(match_score);
    effects.push(
        Effect::Incident(
            "[MATCH] ".to_owned().concat(rule.name.as_str()).concat(" | severity=").concat(
                rule.severity.as_str(),
            ).concat(" | score=").concat(points.as_str()),
        ),
    );
    if let Remediation::AlertOnly = rule.remediation {
        let subject = "Aegira alert-only rule: ".to_owned().concat(rule.name.as_str());
        let mut alarm = alert::alert(config, subject.as_str(), incident);
        effects.append(&mut alarm);
        return Decision { effects, recover: None };
    }
    let ghost before = recovery_history@;
    let earlier = match recovery_history.remove(key.as_str()) {
        Some(s) => s,
        None => Vec::new(),
    };
    assert(earlier@ == history_of(m.history, key@));
    let mut stamps_now = retain_recent(earlier, now, config.recovery_window_secs);
    if stamps_now.len() as u64 >= config.max_recovery_attempts as u64 {
        recovery_history.insert(key, stamps_now);
        assert(stamps(recovery_history@) == stamps(before).insert(key@, stamps_now@));
        let subject = "Aegira recovery limit exceeded: ".to_owned().concat(rule.name.as_str());
        let attempts = text::decimal_text(config.max_recovery_attempts as u64);
        let window = text::decimal_text(config.recovery_window_secs);
        let body = "Recovery stopped after ".to_owned().concat(attempts.as_str()).concat(
            " attempts in ",
        ).concat(window.as_str()).concat(" seconds. Incident: ").concat(incident);
        let mut alarm = alert::alert(config, subject.as_str(), body.as_str());
        effects.append(&mut alarm);
        return Decision { effects, recover: None };
    }
    stamps_now.push(now);
    recovery_history.insert(key, stamps_now);
    assert(stamps(recovery_history@) == stamps(before).insert(key@, stamps_now@));
    Decision { effects, recover: Some(i) }
}

/// An incident that the engine meets: the rules in use, its text and its time.
pub struct Arrival {
    pub rules: Seq<Rule>,
    pub incident: Seq<char>,
    pub now: Moment,
}

/// Whether time does not run backwards.
pub open spec fn in_time_order(arrivals: Seq<Arrival>) -> bool {
    forall|i: int, j: int|
        0 <= i <= j < arrivals.len() ==> (#[trigger] arrivals[i]).now <= (#[trigger] arrivals[j]).now
}

/// What is remembered after a course of incidents.
pub open spec fn memory_after(config: Config, arrivals: Seq<Arrival>) -> Memory
    decreases arrivals.len(),
{
    if arrivals.len() == 0 {
        Memory { cooldowns: Map::empty(), history: Map::empty() }
    } else {
        let a = arrivals.last();
        handled(
            config,
            a.rules,
            a.incident,
            a.now,
            memory_after(config, arrivals.drop_last()),
        ).memory
    }
}

/// What is done about the last of a course of incidents.
pub open spec fn last_handling(config: Config, arrivals: Seq<Arrival>) -> Handling
    recommends
        arrivals.len() > 0,
{
    let a = arrivals.last();
    handled(config, a.rules, a.incident, a.now, memory_after(config, arrivals.drop_last()))
}

/// When recoveries were started by the rules that are remembered under `key`.
pub open spec fn recovery_starts(config: Config, arrivals: Seq<Arrival>, key: Seq<char>) -> Seq<
    Moment,
>
    decreases arrivals.len(),
{
    if arrivals.len() == 0 {
        Seq::empty()
    } else {
        let before = recovery_starts(config, arrivals.drop_last(), key);
        match last_handling(config, arrivals).recover {
            Some(i) => if memory_key(arrivals.last().rules[i]) == key {
                before.push(arrivals.last().now)
            } else {
                before
            },
            None => before,
        }
    }
}

/// When incidents were taken up by the rules that are remembered under `key`, that is, met while
/// no such rule was cooling down.
pub open spec fn taken_up(config: Config, arrivals: Seq<Arrival>, key: Seq<char>) -> Seq<Moment>
    decreases arrivals.len(),
{
    if arrivals.len() == 0 {
        Seq::empty()
    } else {
        let before = taken_up(config, arrivals.drop_last(), key);
        let a = arrivals.last();
        match chosen(a.rules, a.incident) {
            Some(i) => {
                let cooling = ledger::recent_entries(
                    memory_after(config, arrivals.drop_last()).cooldowns,
                    a.now,
                    config.incident_cooldown_secs,
                );
                if memory_key(a.rules[i]) == key && !cooling.contains_key(key) {
                    before.push(a.now)
                } else {
                    before
                }
            },
            None => before,
        }
    }
}

proof fn lemma_recent_twice(s: Seq<Moment>, earlier: Moment, now: Moment, secs: u64)
    requires
        earlier <= now,
    ensures
        recent_stamps(recent_stamps(s, earlier, secs), now, secs) == recent_stamps(s, now, secs),
        recent_stamps(s, now, secs).len() <= recent_stamps(s, earlier, secs).len(),
    decreases s.len(),
{
    reveal(Seq::filter);
    if s.len() > 0 {
        let rest = s.drop_last();
        lemma_recent_twice(rest, earlier, now, secs);
        let kept = recent_stamps(rest, earlier, secs);
        if clock::recent(earlier, s.last(), secs) {
            assert(recent_stamps(s, earlier, secs) == kept.push(s.last()));
            assert(kept.push(s.last()).drop_last() == kept);
        }
    }
}

proof fn lemma_recent_push(s: Seq<Moment>, t: Moment, now: Moment, secs: u64)
    ensures
        recent_stamps(s.push(t), now, secs) == (if clock::recent(now, t, secs) {
            recent_stamps(s, now, secs).push(t)
        } else {
            recent_stamps(s, now, secs)
        }),
{
    reveal(Seq::filter);
    assert(s.push(t).drop_last() == s);
}

/// The starts within the window are those that are remembered, and they are no more than allowed.
proof fn lemma_history_is_complete(
    config: Config,
    arrivals: Seq<Arrival>,
    key: Seq<char>,
    now: Moment,
)
    requires
        in_time_order(arrivals),
        arrivals.len() > 0 ==> arrivals.last().now <= now,
    ensures
        recent_stamps(
            history_of(memory_after(config, arrivals).history, key),
            now,
            config.recovery_window_secs,
        ) == recent_stamps(
            recovery_starts(config, arrivals, key),
            now,
            config.recovery_window_secs,
        ),
        recent_stamps(
            recovery_starts(config, arrivals, key),
            now,
            config.recovery_window_secs,
        ).len() <= config.max_recovery_attempts,
    decreases arrivals.len(),
{
    let secs = config.recovery_window_secs;
    if arrivals.len() == 0 {
        reveal(Seq::filter);
    } else {
        let before = arrivals.drop_last();
        let a = arrivals.last();
        lemma_shorter_in_time_order(arrivals);
        lemma_history_is_complete(config, before, key, now);
        lemma_history_is_complete(config, before, key, a.now);
        let old_history = history_of(memory_after(config, before).history, key);
        let old_starts = recovery_starts(config, before, key);
        lemma_recent_twice(old_history, a.now, now, secs);
        lemma_recent_twice(old_starts, a.now, now, secs);
        lemma_recent_push(recent_stamps(old_history, a.now, secs), a.now, now, secs);
        lemma_recent_push(old_starts, a.now, now, secs);
    }
}

/// The recoveries that the rules remembered under one key start within any time shorter than the
/// recovery window are no more than the configuration allows, whatever incidents come and however
/// the rules change meanwhile.
pub proof fn law_recovery_attempts_are_bounded(
    config: Config,
    arrivals: Seq<Arrival>,
    key: Seq<char>,
    now: Moment,
)
    requires
        in_time_order(arrivals),
        forall|i: int| 0 <= i < arrivals.len() ==> (#[trigger] arrivals[i]).now <= now,
    ensures
        recent_stamps(
            recovery_starts(config, arrivals, key),
            now,
            config.recovery_window_secs,
        ).len() <= config.max_recovery_attempts,
{
    lemma_history_is_complete(config, arrivals, key, now);
}

proof fn lemma_last_use_is_remembered(
    config: Config,
    arrivals: Seq<Arrival>,
    key: Seq<char>,
    now: Moment,
)
    requires
        in_time_order(arrivals),
        arrivals.len() > 0 ==> arrivals.last().now <= now,
        taken_up(config, arrivals, key).len() > 0,
        clock::recent(
            now,
            taken_up(config, arrivals, key).last(),
            config.incident_cooldown_secs,
        ),
    ensures
        memory_after(config, arrivals).cooldowns.contains_key(key),
        memory_after(config, arrivals).cooldowns[key] == taken_up(config, arrivals, key).last(),
    decreases arrivals.len(),
{
    if arrivals.len() > 0 {
        let before = arrivals.drop_last();
        let a = arrivals.last();
        lemma_shorter_in_time_order(arrivals);
        if taken_up(config, arrivals, key) == taken_up(config, before, key) {
            lemma_last_use_is_remembered(config, before, key, a.now);
        }
    }
}

proof fn lemma_shorter_in_time_order(arrivals: Seq<Arrival>)
    requires
        in_time_order(arrivals),
        arrivals.len() > 0,
    ensures
        in_time_order(arrivals.drop_last()),
        arrivals.len() > 1 ==> arrivals.drop_last().last().now <= arrivals.last().now,
{
    let before = arrivals.drop_last();
    assert forall|i: int, j: int| 0 <= i <= j < before.len() implies (#[trigger] before[i]).now <= (
    #[trigger] before[j]).now by {
        assert(arrivals[i].now <= arrivals[j].now);
    }
    if before.len() > 0 {
        assert(arrivals[before.len() - 1].now <= arrivals[before.len() as int].now);
    }
}

proof fn lemma_taken_up_in_past(config: Config, arrivals: Seq<Arrival>, key: Seq<char>)
    requires
        in_time_order(arrivals),
    ensures
        forall|i: int|
            0 <= i < taken_up(config, arrivals, key).len() ==> arrivals.len() > 0 && (
            #[trigger] taken_up(config, arrivals, key)[i]) <= arrivals.last().now,
    decreases arrivals.len(),
{
    if arrivals.len() > 0 {
        lemma_shorter_in_time_order(arrivals);
        lemma_taken_up_in_past(config, arrivals.drop_last(), key);
        let before = taken_up(config, arrivals.drop_last(), key);
        let all = taken_up(config, arrivals, key);
        assert forall|i: int| 0 <= i < all.len() implies #[trigger] all[i]
            <= arrivals.last().now by {
            if i < before.len() {
                assert(all[i] == before[i]);
            }
        }
    }
}

/// Between two incidents that are taken up by rules remembered under one key lie at least as many
/// seconds as the configured cooldown.
pub proof fn law_cooldown_is_kept(
    config: Config,
    arrivals: Seq<Arrival>,
    key: Seq<char>,
    i: int,
    j: int,
)
    requires
        in_time_order(arrivals),
        0 <= i < j < taken_up(config, arrivals, key).len(),
    ensures
        taken_up(config, arrivals, key)[j] - taken_up(config, arrivals, key)[i] >= clock::nanos(
            config.incident_cooldown_secs,
        ),
    decreases arrivals.len(),
{
    if arrivals.len() > 0 {
        let before = arrivals.drop_last();
        let a = arrivals.last();
        lemma_shorter_in_time_order(arrivals);
        lemma_taken_up_in_past(config, before, key);
        let old_taken = taken_up(config, before, key);
        let all = taken_up(config, arrivals, key);
        if j < old_taken.len() {
            law_cooldown_is_kept(config, before, key, i, j);
        } else {
            assert(all == old_taken.push(a.now));
            let last = old_taken.last();
            assert(last == old_taken[old_taken.len() - 1]);
            if i < old_taken.len() - 1 {
                law_cooldown_is_kept(config, before, key, i, old_taken.len() - 1);
            }
            if clock::recent(a.now, last, config.incident_cooldown_secs) {
                lemma_last_use_is_remembered(config, before, key, a.now);
            }
            assert(last <= a.now);
        }
    }
}

/// What is decided about an incident leaves what is remembered under other keys as it is, but for
/// cooldowns that have run out.
pub proof fn law_other_rules_are_unaffected(
    config: Config,
    rules: Seq<Rule>,
    incident: Seq<char>,
    now: Moment,
    m: Memory,
    i: int,
    key: Seq<char>,
)
    requires
        chosen(rules, incident) == Some(i),
        key != unicode::lowercase(rules[i].id@),
    ensures
        handled(config, rules, incident, now, m).memory.history.contains_key(key)
            <==> m.history.contains_key(key),
        m.history.contains_key(key) ==> handled(config, rules, incident, now, m).memory.history[key]
            == m.history[key],
        handled(config, rules, incident, now, m).memory.cooldowns.contains_key(key) <==> (
        m.cooldowns.contains_key(key) && clock::recent(
            now,
            m.cooldowns[key],
            config.incident_cooldown_secs,
        )),
        handled(config, rules, incident, now, m).memory.cooldowns.contains_key(key) ==> handled(
            config,
            rules,
            incident,
            now,
            m,
        ).memory.cooldowns[key] == m.cooldowns[key],
{
}

/// A recovery is started only by the rule to use for the incident, never by one that asks for an
/// alert alone, never while that rule cools down, and never beyond the limit.
pub proof fn law_recoveries_are_warranted(
    config: Config,
    rules: Seq<Rule>,
    incident: Seq<char>,
    now: Moment,
    m: Memory,
    i: int,
)
    requires
        handled(config, rules, incident, now, m).recover == Some(i),
    ensures
        matching::best_for(rules, incident, i),
        !(rules[i].remediation is AlertOnly),
        !(m.cooldowns.contains_key(memory_key(rules[i])) && clock::recent(
            now,
            m.cooldowns[memory_key(rules[i])],
            config.incident_cooldown_secs,
        )),
        recent_stamps(
            history_of(m.history, memory_key(rules[i])),
            now,
            config.recovery_window_secs,
        ).len() < config.max_recovery_attempts,
{
}

/// An incident that starts no recovery and does not fall into a cooldown raises an alert.
pub proof fn law_unhandled_incidents_raise_alerts(
    config: Config,
    rules: Seq<Rule>,
    incident: Seq<char>,
    now: Moment,
    m: Memory,
)
    requires
        handled(config, rules, incident, now, m).recover is None,
        chosen(rules, incident) matches Some(i) ==> !ledger::recent_entries(
            m.cooldowns,
            now,
            config.incident_cooldown_secs,
        ).contains_key(memory_key(rules[i])),
    ensures
        exists|subject: Seq<char>, body: Seq<char>, first: Seq<EffectView>|
            handled(config, rules, incident, now, m).effects == #[trigger] (first
                + alert::alert_effects(config, subject, body)),
{
    let detected = seq![EffectView::Incident("[DETECTED] "@ + incident)];
    let effects = handled(config, rules, incident, now, m).effects;
    match chosen(rules, incident) {
        None => {
            assert(effects == detected + alert::alert_effects(
                config,
                "Aegira: unknown incident"@,
                "No active rule matched: "@ + incident,
            ));
        },
        Some(i) => {
            let rule = rules[i];
            let matched = detected.push(EffectView::Incident(match_line(rule, incident)));
            if rule.remediation is AlertOnly {
                assert(effects == matched + alert::alert_effects(
                    config,
                    "Aegira alert-only rule: "@ + rule.name@,
                    incident,
                ));
            } else {
                assert(effects == matched + alert::alert_effects(
                    config,
                    "Aegira recovery limit exceeded: "@ + rule.name@,
                    limit_body(config, incident),
                ));
            }
        },
    }
}

/// The rule to use is the best one, and there is none only where no rule has a score of at least 60.
pub proof fn law_best_rule_is_chosen(rules: Seq<Rule>, incident: Seq<char>, i: int)
    ensures
        chosen(rules, incident) == Some(i) <==> matching::best_for(rules, incident, i),
        chosen(rules, incident) is None <==> forall|j: int|
            0 <= j < rules.len() && matching::rule_score(#[trigger] rules[j], incident) is Some
                ==> matching::rule_score(rules[j], incident)->0 < 60,
{
    lemma_chosen(rules, incident);
    matching::law_some_rule_is_best(rules, incident);
}

/// Starts are counted one by one: a further one counts as long as fewer than the given number of
/// seconds have passed since it.
pub proof fn law_recent_starts_are_counted_one_by_one(
    s: Seq<Moment>,
    t: Moment,
    now: Moment,
    secs: u64,
)
    ensures
        recent_stamps(Seq::empty(), now, secs) == Seq::<Moment>::empty(),
        clock::recent(now, t, secs) ==> recent_stamps(s.push(t), now, secs) == recent_stamps(
            s,
            now,
            secs,
        ).push(t),
        !clock::recent(now, t, secs) ==> recent_stamps(s.push(t), now, secs) == recent_stamps(
            s,
            now,
            secs,
        ),
{
    reveal(Seq::filter);
    lemma_recent_push(s, t, now, secs);
}

/// A recovery is started whenever it may be: by the rule to use, where that rule asks for more than
/// an alert, does not cool down, and has started fewer recoveries within the window than it may. The
/// start is remembered, the cooldown begins, and no alert is raised.
pub proof fn law_recoveries_are_started(
    config: Config,
    rules: Seq<Rule>,
    incident: Seq<char>,
    now: Moment,
    m: Memory,
    i: int,
)
    requires
        chosen(rules, incident) == Some(i),
        rules[i].remediation is ServiceRestart || rules[i].remediation is ContainerRestart,
        !(m.cooldowns.contains_key(unicode::lowercase(rules[i].id@)) && clock::recent(
            now,
            m.cooldowns[unicode::lowercase(rules[i].id@)],
            config.incident_cooldown_secs,
        )),
        m.history.contains_key(unicode::lowercase(rules[i].id@)) ==> recent_stamps(
            m.history[unicode::lowercase(rules[i].id@)],
            now,
            config.recovery_window_secs,
        ).len() < config.max_recovery_attempts,
        config.max_recovery_attempts > 0,
    ensures
        ({
            let h = handled(config, rules, incident, now, m);
            let key = unicode::lowercase(rules[i].id@);
            &&& h.recover == Some(i)
            &&& h.memory.history == m.history.insert(
                key,
                if m.history.contains_key(key) {
                    recent_stamps(m.history[key], now, config.recovery_window_secs).push(now)
                } else {
                    seq![now]
                },
            )
            &&& h.memory.cooldowns.contains_key(key) && h.memory.cooldowns[key] == now
            &&& h.effects == seq![
                EffectView::Incident("[DETECTED] "@ + incident),
                EffectView::Incident(
                    "[MATCH] "@ + rules[i].name@ + " | severity="@ + rules[i].severity@
                        + " | score="@ + text::signed_decimal(
                        matching::rule_score(rules[i], incident)->0,
                    ),
                ),
            ]
        }),
{
    reveal(Seq::filter);
    let key = memory_key(rules[i]);
    if !m.history.contains_key(key) {
        assert(history_of(m.history, key) == Seq::<Moment>::empty());
        assert(recent_stamps(Seq::empty(), now, config.recovery_window_secs)
            == Seq::<Moment>::empty());
        assert(Seq::<Moment>::empty().push(now) == seq![now]);
    }
}

/// A rule that has started as many recoveries within the window as it may starts no other: an alert
/// is raised that says so. The cooldown begins all the same.
pub proof fn law_recoveries_stop_at_the_limit(
    config: Config,
    rules: Seq<Rule>,
    incident: Seq<char>,
    now: Moment,
    m: Memory,
    i: int,
)
    requires
        chosen(rules, incident) == Some(i),
        rules[i].remediation is ServiceRestart || rules[i].remediation is ContainerRestart,
        !(m.cooldowns.contains_key(unicode::lowercase(rules[i].id@)) && clock::recent(
            now,
            m.cooldowns[unicode::lowercase(rules[i].id@)],
            config.incident_cooldown_secs,
        )),
        m.history.contains_key(unicode::lowercase(rules[i].id@)) ==> recent_stamps(
            m.history[unicode::lowercase(rules[i].id@)],
            now,
            config.recovery_window_secs,
        ).len() >= config.max_recovery_attempts,
        !m.history.contains_key(unicode::lowercase(rules[i].id@)) ==> config.max_recovery_attempts
            == 0,
    ensures
        ({
            let h = handled(config, rules, incident, now, m);
            let key = unicode::lowercase(rules[i].id@);
            &&& h.recover is None
            &&& h.memory.history == m.history.insert(
                key,
                if m.history.contains_key(key) {
                    recent_stamps(m.history[key], now, config.recovery_window_secs)
                } else {
                    Seq::empty()
                },
            )
            &&& h.memory.cooldowns.contains_key(key) && h.memory.cooldowns[key] == now
            &&& h.effects == seq![
                EffectView::Incident("[DETECTED] "@ + incident),
                EffectView::Incident(
                    "[MATCH] "@ + rules[i].name@ + " | severity="@ + rules[i].severity@
                        + " | score="@ + text::signed_decimal(
                        matching::rule_score(rules[i], incident)->0,
                    ),
                ),
            ] + alert::alert_effects(
                config,
                "Aegira recovery limit exceeded: "@ + rules[i].name@,
                "Recovery stopped after "@ + text::decimal(config.max_recovery_attempts as nat)
                    + " attempts in "@ + text::decimal(config.recovery_window_secs as nat)
                    + " seconds. Incident: "@ + incident,
            )
        }),
{
    reveal(Seq::filter);
    let key = memory_key(rules[i]);
    if !m.history.contains_key(key) {
        assert(recent_stamps(Seq::empty(), now, config.recovery_window_secs)
            == Seq::<Moment>::empty());
    }
}

/// A rule that asks for an alert alone raises one whenever it does not cool down, starts no recovery
/// and leaves the history as it is. The cooldown begins.
pub proof fn law_alert_only_rules_raise_alerts(
    config: Config,
    rules: Seq<Rule>,
    incident: Seq<char>,
    now: Moment,
    m: Memory,
    i: int,
)
    requires
        chosen(rules, incident) == Some(i),
        rules[i].remediation is AlertOnly,
        !(m.cooldowns.contains_key(unicode::lowercase(rules[i].id@)) && clock::recent(
            now,
            m.cooldowns[unicode::lowercase(rules[i].id@)],
            config.incident_cooldown_secs,
        )),
    ensures
        ({
            let h = handled(config, rules, incident, now, m);
            let key = unicode::lowercase(rules[i].id@);
            &&& h.recover is None
            &&& h.memory.history == m.history
            &&& h.memory.cooldowns.contains_key(key) && h.memory.cooldowns[key] == now
            &&& h.effects == seq![
                EffectView::Incident("[DETECTED] "@ + incident),
                EffectView::Incident(
                    "[MATCH] "@ + rules[i].name@ + " | severity="@ + rules[i].severity@
                        + " | score="@ + text::signed_decimal(
                        matching::rule_score(rules[i], incident)->0,
                    ),
                ),
            ] + alert::alert_effects(
                config,
                "Aegira alert-only rule: "@ + rules[i].name@,
                incident,
            )
        }),
{
}

/// An incident for a rule that cools down is only logged: nothing is started, no alert is raised,
/// and what is remembered stays, but for cooldowns that have run out.
pub proof fn law_cooling_rules_are_skipped(
    config: Config,
    rules: Seq<Rule>,
    incident: Seq<char>,
    now: Moment,
    m: Memory,
    i: int,
)
    requires
        chosen(rules, incident) == Some(i),
        m.cooldowns.contains_key(unicode::lowercase(rules[i].id@)),
        clock::recent(
            now,
            m.cooldowns[unicode::lowercase(rules[i].id@)],
            config.incident_cooldown_secs,
        ),
    ensures
        ({
            let h = handled(config, rules, incident, now, m);
            &&& h.recover is None
            &&& h.memory.history == m.history
            &&& forall|k: Seq<char>| #[trigger]
                h.memory.cooldowns.contains_key(k) <==> m.cooldowns.contains_key(k)
                    && clock::recent(now, m.cooldowns[k], config.incident_cooldown_secs)
            &&& forall|k: Seq<char>| #[trigger]
                h.memory.cooldowns.contains_key(k) ==> h.memory.cooldowns[k] == m.cooldowns[k]
            &&& h.effects == seq![
                EffectView::Incident("[DETECTED] "@ + incident),
                EffectView::Incident("[COOLDOWN] Rule '"@ + rules[i].id@ + "' skipped"@),
            ]
        }),
{
    let h = handled(config, rules, incident, now, m);
    assert(h.effects == seq![
        EffectView::Incident("[DETECTED] "@ + incident),
        EffectView::Incident("[COOLDOWN] Rule '"@ + rules[i].id@ + "' skipped"@),
    ]);
}

/// An incident for which no rule has a score of at least 60 raises an alert with its text, and
/// changes nothing in what is remembered.
pub proof fn law_unknown_incidents_raise_alerts(
    config: Config,
    rules: Seq<Rule>,
    incident: Seq<char>,
    now: Moment,
    m: Memory,
)
    requires
        forall|j: int|
            0 <= j < rules.len() && matching::rule_score(#[trigger] rules[j], incident) is Some
                ==> matching::rule_score(rules[j], incident)->0 < 60,
    ensures
        ({
            let h = handled(config, rules, incident, now, m);
            &&& h.recover is None
            &&& h.memory == m
            &&& h.effects == seq![EffectView::Incident("[DETECTED] "@ + incident)]
                + alert::alert_effects(
                config,
                "Aegira: unknown incident"@,
                "No active rule matched: "@ + incident,
            )
        }),
{
    law_best_rule_is_chosen(rules, incident, 0);
}

/// A decision carries out what is to be done: the same effects, and a recovery by the same rule or
/// none.
pub proof fn law_decisions_are_carried_out(d: Decision, h: Handling, n: nat)
    requires
        decides(d, h, n),
    ensures
        d.effects@.len() == h.effects.len(),
        forall|i: int| 0 <= i < h.effects.len() ==> (#[trigger] d.effects@[i])@ == h.effects[i],
        h.recover is None ==> d.recover is None,
        h.recover matches Some(i) ==> (d.recover matches Some(k) && k == i && k < n),
{
    assert(alert::shown(d.effects@).len() == d.effects@.len());
    assert forall|i: int| 0 <= i < h.effects.len() implies (#[trigger] d.effects@[i])@
        == h.effects[i] by {
        assert(alert::shown(d.effects@)[i] == d.effects@[i]@);
    }
}

/// What the two tables hold is what is remembered.
pub proof fn law_tables_are_the_memory(cooldowns: Ledger<Moment>, history: Ledger<Vec<Moment>>)
    ensures
        memory(cooldowns, history).cooldowns == cooldowns@,
        forall|k: Seq<char>| #[trigger]
            memory(cooldowns, history).history.contains_key(k) <==> history@.contains_key(k),
        forall|k: Seq<char>|
            history@.contains_key(k) ==> #[trigger] memory(cooldowns, history).history[k]
                == history@[k]@,
{
}

/// An incident starts a recovery exactly when it may: by the best rule for it, where that asks for a
/// restart, was not used within the cooldown, and has started fewer recoveries within the window
/// than are allowed.
pub proof fn law_incidents_start_recoveries(
    config: &Config,
    rules: &[Rule],
    incident: &str,
    cooldowns: &mut Ledger<Moment>,
    recovery_history: &mut Ledger<Vec<Moment>>,
    now: Moment,
    r: Decision,
    i: int,
)
    requires
        call_ensures(
            process_incident,
            (config, rules, incident, cooldowns, recovery_history, now),
            r,
        ),
        0 <= i < rules@.len(),
    ensures
        ({
            let key = unicode::lowercase(rules@[i].id@);
            let used = old(cooldowns)@.contains_key(key) && clock::recent(
                now,
                old(cooldowns)@[key],
                config.incident_cooldown_secs,
            );
            let starts = if old(recovery_history)@.contains_key(key) {
                recent_stamps(
                    old(recovery_history)@[key]@,
                    now,
                    config.recovery_window_secs,
                )
            } else {
                Seq::empty()
            };
            let started = r.recover matches Some(k) && k == i;
            &&& started <==> matching::best_for(rules@, incident@, i) && (
            rules@[i].remediation is ServiceRestart || rules@[i].remediation is ContainerRestart)
                && !used && starts.len() < config.max_recovery_attempts
            &&& started ==> final(recovery_history)@.contains_key(key) && final(recovery_history)@[key]@ == starts.push(now)
            &&& matching::best_for(rules@, incident@, i) && !used ==> final(cooldowns)@.contains_key(key) && final(cooldowns)@[key] == now
            &&& matching::best_for(rules@, incident@, i) && used ==> final(cooldowns)@.contains_key(key) && final(cooldowns)@[key] == old(cooldowns)@[key]
            &&& r.effects@.len() > 0 && r.effects@[0]@ == EffectView::Incident(
                "[DETECTED] "@ + incident@,
            )
        }),
{
    reveal(Seq::filter);
    let m = memory(*old(cooldowns), *old(recovery_history));
    let h = handled(*config, rules@, incident@, now, m);
    law_best_rule_is_chosen(rules@, incident@, i);
    law_decisions_are_carried_out(r, h, rules@.len());
    law_tables_are_the_memory(*old(cooldowns), *old(recovery_history));
    law_tables_are_the_memory(*final(cooldowns), *final(recovery_history));
    let key = unicode::lowercase(rules@[i].id@);
    assert(m.history.contains_key(key) <==> old(recovery_history)@.contains_key(key));
    if let Some(k) = chosen(rules@, incident@) {
        law_best_rule_is_chosen(rules@, incident@, k);
        if k == i {
            assert(h.memory.history.contains_key(key) <==> final(recovery_history)@.contains_key(key));
            if final(recovery_history)@.contains_key(key) {
                assert(memory(*final(cooldowns), *final(recovery_history)).history[key] == final(recovery_history)@[key]@);
            }
        }
    }
    assert(r.effects@[0]@ == h.effects[0]);
}

/// What an incident does is what is to be done about it, with what was remembered before, and leaves
/// behind what is to be remembered after it.
pub proof fn law_incidents_are_handled(
    config: &Config,
    rules: &[Rule],
    incident: &str,
    cooldowns: &mut Ledger<Moment>,
    recovery_history: &mut Ledger<Vec<Moment>>,
    now: Moment,
    r: Decision,
)
    requires
        call_ensures(
            process_incident,
            (config, rules, incident, cooldowns, recovery_history, now),
            r,
        ),
    ensures
        ({
            let h = handled(
                *config,
                rules@,
                incident@,
                now,
                memory(*old(cooldowns), *old(recovery_history)),
            );
            &&& alert::shown(r.effects@) == h.effects
            &&& h.recover is None ==> r.recover is None
            &&& h.recover matches Some(i) ==> (r.recover matches Some(k) && k == i)
            &&& final(cooldowns)@ == h.memory.cooldowns
            &&& memory(*final(cooldowns), *final(recovery_history)) == h.memory
        }),
{
}

} // verus!
