//! Which rule fits an incident.

use crate::managed::rule::Rule;
use crate::normalize;
use crate::scoring;
use crate::scoring::MIN_MATCH_SCORE;
use crate::text;
use vstd::prelude::*;
use vstd::string::*;

verus! {

/// The score of a rule for an incident.
pub open spec fn rule_score(rule: Rule, incident: Seq<char>) -> Option<int> {
    scoring::points(
        scoring::normalized_hits(rule.error_patterns@, incident),
        scoring::normalized_hits(rule.context_patterns@, incident),
        rule.priority,
    )
}

/// The scores of the rules for an incident.
pub open spec fn rule_scores(rules: Seq<Rule>, incident: Seq<char>) -> Seq<Option<int>> {
    rules.map_values(|r: Rule| rule_score(r, incident))
}

/// The score of a rule for an incident.
pub fn score(rule: &Rule, incident: &str) -> (r: Option<i32>)
    ensures
        scoring::score_value(r) == rule_score(*rule, incident@),
{
    let errors = scoring::count_normalized(&rule.error_patterns, incident);
    if errors == 0 {
        return None;
    }
    let contexts = scoring::count_normalized(&rule.context_patterns, incident);
    scoring::match_points(errors, contexts, rule.priority)
}

/// Whether a score is high enough for the rule to be chosen.
pub open spec fn eligible(score: Option<int>) -> bool {
    score matches Some(n) && n >= MIN_MATCH_SCORE
}

/// Whether the rule at `i` is preferred to the one at `j`, both being eligible: by the higher
/// score; then by the lower priority; then by the id that comes first; then by standing further
/// back.
pub open spec fn preferred(rules: Seq<Rule>, scores: Seq<Option<int>>, i: int, j: int) -> bool {
    let (a, b) = (rules[i], rules[j]);
    let (x, y) = (scores[i]->0, scores[j]->0);
    ||| x > y
    ||| x == y && a.priority < b.priority
    ||| x == y && a.priority == b.priority && text::text_precedes(a.id@, b.id@)
    ||| x == y && a.priority == b.priority && a.id@ == b.id@ && i > j
}

/// Whether the rule at `i` is eligible and preferred to every other that is.
pub open spec fn best_among(rules: Seq<Rule>, scores: Seq<Option<int>>, i: int) -> bool {
    &&& 0 <= i < rules.len()
    &&& eligible(scores[i])
    &&& forall|j: int|
        0 <= j < rules.len() && j != i && eligible(#[trigger] scores[j]) ==> preferred(
            rules,
            scores,
            i,
            j,
        )
}

/// Whether no rule is eligible.
pub open spec fn none_eligible(scores: Seq<Option<int>>) -> bool {
    forall|j: int| 0 <= j < scores.len() ==> !eligible(#[trigger] scores[j])
}

/// The scores as integers of the model.
pub open spec fn score_values(scores: Seq<Option<i32>>) -> Seq<Option<int>> {
    scores.map_values(|s: Option<i32>| scoring::score_value(s))
}

/// Chooses the rule to use by the scores.
pub fn pick_best(rules: &[Rule], scores: &Vec<Option<i32>>) -> (r: Option<usize>)
    requires
        rules@.len() == scores@.len(),
    ensures
        match r {
            Some(i) => best_among(rules@, score_values(scores@), i as int),
            None => none_eligible(score_values(scores@)),
        },
{
    let ghost s = score_values(scores@);
    let mut best: Option<(usize, i32)> = None;
    for j in 0..rules.len()
        invariant
            rules@.len() == scores@.len(),
            s == score_values(scores@),
            match best {
                Some((i, x)) => {
                    &&& i < j
                    &&& s[i as int] == Some(x as int)
                    &&& best_among(rules@.take(j as int), s.take(j as int), i as int)
                },
                None => none_eligible(s.take(j as int)),
            },
    {
        let ghost old_best = best;
        let ghost (rules0, s0) = (rules@.take(j as int), s.take(j as int));
        let ghost (rules1, s1) = (rules@.take(j + 1), s.take(j + 1));
        assert(s[j as int] == scoring::score_value(scores@[j as int]));
        if let Some(y) = scores[j] {
            if y >= MIN_MATCH_SCORE {
                match best {
                    None => {
                        best = Some((j, y));
                        assert(best_among(rules1, s1, j as int)) by {
                            assert forall|k: int|
                                0 <= k < rules1.len() && k != j && eligible(
                                    #[trigger] s1[k],
                                ) implies preferred(rules1, s1, j as int, k) by {
                                assert(s0[k] == s1[k]);
                            }
                        }
                    },
                    Some((i, x)) => {
                        let keep = x > y || (x == y && (rules[i].priority < rules[j].priority || (
                        rules[i].priority == rules[j].priority && text::precedes(
                            rules[i].id.as_str(),
                            rules[j].id.as_str(),
                        ))));
                        proof {
                            text::lemma_order_total(rules@[i as int].id@, rules@[j as int].id@);
                        }
                        if !keep {
                            best = Some((j, y));
                            assert(preferred(rules1, s1, j as int, i as int));
                            assert forall|k: int|
                                0 <= k < rules1.len() && k != j && eligible(
                                    #[trigger] s1[k],
                                ) implies preferred(rules1, s1, j as int, k) by {
                                if k != i {
                                    assert(s0[k] == s1[k]);
                                    assert(preferred(rules0, s0, i as int, k));
                                    assert(preferred(rules1, s1, i as int, k));
                                    lemma_preferred_transitive(rules1, s1, j as int, i as int, k);
                                }
                            }
                        } else {
                            assert(preferred(rules1, s1, i as int, j as int));
                        }
                    },
                }
            }
        }
        proof {
            match best {
                Some((i, x)) => {
                    if best == old_best {
                        assert(best_among(rules1, s1, i as int)) by {
                            assert(s1[i as int] == s0[i as int]);
                            assert forall|k: int|
                                0 <= k < rules1.len() && k != i && eligible(
                                    #[trigger] s1[k],
                                ) implies preferred(rules1, s1, i as int, k) by {
                                if k < j {
                                    assert(s0[k] == s1[k]);
                                    assert(preferred(rules0, s0, i as int, k));
                                }
                            }
                        }
                    }
                },
                None => {
                    assert forall|k: int| 0 <= k < s1.len() implies !eligible(#[trigger] s1[k]) by {
                        if k < j {
                            assert(s0[k] == s1[k]);
                        }
                    }
                },
            }
        }
    }
    assert(rules@.take(rules@.len() as int) == rules@);
    assert(s.take(s.len() as int) == s);
    match best {
        Some((i, _)) => Some(i),
        None => None,
    }
}

proof fn lemma_preferred_transitive(
    rules: Seq<Rule>,
    scores: Seq<Option<int>>,
    i: int,
    j: int,
    k: int,
)
    requires
        preferred(rules, scores, i, j),
        preferred(rules, scores, j, k),
    ensures
        preferred(rules, scores, i, k),
{
    if text::text_precedes(rules[i].id@, rules[j].id@) && text::text_precedes(
        rules[j].id@,
        rules[k].id@,
    ) {
        text::lemma_order_transitive(rules[i].id@, rules[j].id@, rules[k].id@);
    }
}

/// Whether the rule at `i` is the one to use for an incident.
pub open spec fn best_for(rules: Seq<Rule>, incident: Seq<char>, i: int) -> bool {
    best_among(rules, rule_scores(rules, incident), i)
}

/// Whether no rule can be used for an incident.
pub open spec fn no_rule_for(rules: Seq<Rule>, incident: Seq<char>) -> bool {
    none_eligible(rule_scores(rules, incident))
}

/// The position and the score of the rule to use for an incident.
pub fn best_position(rules: &[Rule], incident: &str) -> (r: Option<(usize, i32)>)
    ensures
        match r {
            Some((i, s)) => best_for(rules@, incident@, i as int) && rule_score(
                rules@[i as int],
                incident@,
            ) == Some(s as int),
            None => no_rule_for(rules@, incident@),
        },
{
    let mut scores: Vec<Option<i32>> = Vec::new();
    for i in 0..rules.len()
        invariant
            score_values(scores@) == rule_scores(rules@, incident@).take(i as int),
    {
        let ghost before = scores@;
        scores.push(score(&rules[i], incident));
        assert(score_values(scores@) == score_values(before).push(
            rule_score(rules@[i as int], incident@),
        ));
        assert(rule_scores(rules@, incident@).take(i + 1) == rule_scores(rules@, incident@).take(
            i as int,
        ).push(rule_score(rules@[i as int], incident@)));
    }
    assert(rule_scores(rules@, incident@).take(rules@.len() as int) == rule_scores(
        rules@,
        incident@,
    ));
    assert(score_values(scores@).len() == rules@.len());
    match pick_best(rules, &scores) {
        None => None,
        Some(i) => {
            assert(score_values(scores@)[i as int] == scoring::score_value(scores@[i as int]));
            match scores[i] {
                Some(s) => Some((i, s)),
                None => None,
            }
        },
    }
}

/// The rule to use for an incident, and its score.
pub fn best_rule<'a>(rules: &'a [Rule], incident: &str) -> (r: Option<(&'a Rule, i32)>)
    ensures
        match r {
            Some((rule, s)) => exists|i: int|
                #![trigger rules@[i]]
                best_for(rules@, incident@, i) && *rule == rules@[i] && rule_score(
                    rules@[i],
                    incident@,
                ) == Some(s as int),
            None => no_rule_for(rules@, incident@),
        },
{
    match best_position(rules, incident) {
        Some((i, s)) => {
            assert(best_for(rules@, incident@, i as int));
            Some((&rules[i], s))
        },
        None => None,
    }
}

/// The words that mark a line as an incident though no rule knows it.
pub open spec fn incident_markers() -> Seq<Seq<char>> {
    seq![
        " error "@,
        " critical "@,
        " fatal "@,
        " exception "@,
        " panic "@,
        " failed "@,
        " failure "@,
        " fatal:"@,
        " traceback"@,
        " stack trace"@,
        " crash"@,
        " crashed"@,
        " oom"@,
        " out-of-memory"@,
    ]
}

/// The words that mark a line as an incident though no rule knows it.
pub fn markers() -> (r: Vec<&'static str>)
    ensures
        text::slices(r@) == incident_markers(),
{
    let words = vec![
        " error ",
        " critical ",
        " fatal ",
        " exception ",
        " panic ",
        " failed ",
        " failure ",
        " fatal:",
        " traceback",
        " stack trace",
        " crash",
        " crashed",
        " oom",
        " out-of-memory",
    ];
    assert(text::slices(words@) == incident_markers());
    words
}

/// Whether one of the marker words stands in a normalized line.
pub open spec fn marked(line: Seq<char>) -> bool {
    exists|m: int|
        0 <= m < incident_markers().len() && text::occurs(
            #[trigger] incident_markers()[m],
            " "@ + line + " "@,
        )
}

/// Tells whether one of the marker words stands in a normalized line.
pub fn has_marker(line: &str) -> (r: bool)
    ensures
        r == marked(line@),
{
    let padded = " ".to_owned().concat(line).concat(" ");
    let words = markers();
    for m in 0..words.len()
        invariant
            padded@ == " "@ + line@ + " "@,
            text::slices(words@) == incident_markers(),
            forall|k: int|
                0 <= k < m ==> !text::occurs(#[trigger] incident_markers()[k], padded@),
    {
        assert(incident_markers()[m as int] == words@[m as int]@);
        if text::contains(padded.as_str(), words[m]) {
            return true;
        }
    }
    assert(words@.len() == incident_markers().len());
    false
}

/// Whether some rule knows a line.
pub open spec fn known(rules: Seq<Rule>, line: Seq<char>) -> bool {
    exists|i: int| 0 <= i < rules.len() && rule_score(#[trigger] rules[i], line) is Some
}

/// Whether a line tells of an incident: it is not empty, and a rule knows it or a marker word
/// stands in it.
pub open spec fn incident(rules: Seq<Rule>, line: Seq<char>) -> bool {
    normalize::normalized(line).len() > 0 && (known(rules, line) || marked(
        normalize::normalized(line),
    ))
}

/// Tells whether a line tells of an incident. The level of a line is not read as such: most marker
/// words count only with a space on either side or at an end of the line, so that a level in
/// brackets is none of them.
pub fn looks_like_incident(line: &str, rules: &[Rule]) -> (r: bool)
    ensures
        r == incident(rules@, line@),
{
    let normalized = normalize::normalize_text(line);
    if normalized.as_str().is_empty() {
        return false;
    }
    for i in 0..rules.len()
        invariant
            normalize::normalized(line@).len() > 0,
            forall|k: int| 0 <= k < i ==> rule_score(#[trigger] rules@[k], line@) is None,
    {
        if score(&rules[i], line).is_some() {
            assert(rule_score(rules@[i as int], line@) is Some);
            return true;
        }
    }
    has_marker(normalized.as_str())
}

/// At most one rule is the best.
pub proof fn law_best_rule_is_unique(
    rules: Seq<Rule>,
    scores: Seq<Option<int>>,
    i: int,
    j: int,
)
    requires
        best_among(rules, scores, i),
        best_among(rules, scores, j),
    ensures
        i == j,
{
    if i != j {
        assert(eligible(scores[i]) && eligible(scores[j]));
        assert(preferred(rules, scores, i, j));
        assert(preferred(rules, scores, j, i));
        lemma_preferred_transitive(rules, scores, i, j, i);
        text::lemma_order_irreflexive(rules[i].id@);
    }
}

/// A line in which some rule finds one of its error patterns tells of an incident, whatever else
/// stands in it.
pub proof fn law_known_lines_are_incidents(rules: Seq<Rule>, line: Seq<char>)
    requires
        known(rules, line),
    ensures
        incident(rules, line),
{
    let i = choose|i: int| 0 <= i < rules.len() && rule_score(#[trigger] rules[i], line) is Some;
    let rule = rules[i];
    let fits = |p: Seq<char>| normalize::matches_normalized(line, p);
    scoring::lemma_hits_positive(rule.error_patterns@, fits);
    let k = choose|k: int|
        0 <= k < rule.error_patterns@.len() && fits((#[trigger] rule.error_patterns@[k])@);
    let p = normalize::normalized(rule.error_patterns@[k]@);
    let at = choose|at: int| text::stands_at(normalize::normalized(line), at, p);
    assert(normalize::normalized(line).len() >= p.len());
}

/// As soon as one of the error patterns of a rule whose priority is not negative stands in a line,
/// there is a rule to use for it.
pub proof fn law_known_failures_find_a_rule(rules: Seq<Rule>, line: Seq<char>, i: int, k: int)
    requires
        0 <= i < rules.len(),
        rules[i].priority >= 0,
        0 <= k < rules[i].error_patterns@.len(),
        normalize::matches_normalized(line, rules[i].error_patterns@[k]@),
    ensures
        !no_rule_for(rules, line),
{
    let fits = |p: Seq<char>| normalize::matches_normalized(line, p);
    assert(fits(rules[i].error_patterns@[k]@));
    scoring::lemma_hits_positive(rules[i].error_patterns@, fits);
    assert(rule_scores(rules, line)[i] == rule_score(rules[i], line));
    assert(eligible(rule_scores(rules, line)[i]));
}

/// A rule has a score for a line exactly when one of its error patterns stands there. The score is
/// that of the number of its error patterns and of its context patterns which do, with its priority.
pub proof fn law_scores(rule: &Rule, incident: &str, r: Option<i32>)
    requires
        call_ensures(score, (rule, incident), r),
    ensures
        r is Some <==> exists|k: int|
            0 <= k < rule.error_patterns@.len() && normalize::matches_normalized(
                incident@,
                (#[trigger] rule.error_patterns@[k])@,
            ),
        r is Some <==> rule_score(*rule, incident@) is Some,
        r matches Some(n) ==> n == rule_score(*rule, incident@)->0 && n == scoring::points(
            scoring::normalized_hits(rule.error_patterns@, incident@),
            scoring::normalized_hits(rule.context_patterns@, incident@),
            rule.priority,
        )->0,
{
    let fits = |p: Seq<char>| normalize::matches_normalized(incident@, p);
    let patterns = rule.error_patterns@;
    scoring::lemma_hits_positive(patterns, fits);
    if scoring::normalized_hits(patterns, incident@) > 0 {
        let k = choose|k: int| 0 <= k < patterns.len() && fits((#[trigger] patterns[k])@);
        assert(normalize::matches_normalized(incident@, patterns[k]@));
    }
    if exists|k: int|
        0 <= k < patterns.len() && normalize::matches_normalized(
            incident@,
            (#[trigger] patterns[k])@,
        ) {
        let k = choose|k: int|
            0 <= k < patterns.len() && normalize::matches_normalized(
                incident@,
                (#[trigger] patterns[k])@,
            );
        assert(fits(patterns[k]@));
    }
}

/// A further context pattern adds ten points to the score of a rule where it stands in the line, up
/// to a hundred in all, and else nothing. So does a further error pattern, once there is a score.
pub proof fn law_further_patterns_raise_the_score(
    rule: Rule,
    longer: Rule,
    p: String,
    incident: Seq<char>,
)
    requires
        rule_score(rule, incident) is Some,
        longer.priority == rule.priority,
        (longer.error_patterns@ == rule.error_patterns@ && longer.context_patterns@
            == rule.context_patterns@.push(p)) || (longer.error_patterns@
            == rule.error_patterns@.push(p) && longer.context_patterns@ == rule.context_patterns@),
    ensures
        !normalize::matches_normalized(incident, p@) ==> rule_score(longer, incident) == rule_score(
            rule,
            incident,
        ),
        normalize::matches_normalized(incident, p@) && rule_score(rule, incident)->0 <= 90
            ==> rule_score(longer, incident) == Some(rule_score(rule, incident)->0 + 10),
        normalize::matches_normalized(incident, p@) && rule_score(rule, incident)->0 > 90
            ==> rule_score(longer, incident) == Some(100int),
{
    scoring::law_patterns_are_counted_one_by_one(rule.context_patterns@, p, incident);
    scoring::law_patterns_are_counted_one_by_one(rule.error_patterns@, p, incident);
    scoring::law_each_match_adds_ten(
        scoring::normalized_hits(rule.error_patterns@, incident),
        scoring::normalized_hits(rule.context_patterns@, incident),
        rule.priority,
    );
}

/// A rule with a single error pattern, which stands in the line, and no context patterns has a score
/// of 60 and its priority, as far as that lies between -20 and 20.
pub proof fn law_score_of_a_single_pattern(rule: Rule, p: String, incident: Seq<char>)
    requires
        rule.error_patterns@ == seq![p],
        rule.context_patterns@.len() == 0,
        normalize::matches_normalized(incident, p@),
    ensures
        -20 <= rule.priority <= 20 ==> rule_score(rule, incident) == Some(60 + rule.priority),
        rule.priority < -20 ==> rule_score(rule, incident) == Some(40int),
        rule.priority > 20 ==> rule_score(rule, incident) == Some(80int),
{
    let none = Seq::<String>::empty();
    scoring::law_patterns_are_counted_one_by_one(none, p, incident);
    scoring::law_patterns_are_counted_one_by_one(rule.context_patterns@, p, incident);
    assert(none.push(p) == rule.error_patterns@);
    scoring::law_one_match_counts_sixty(0, rule.priority);
}

/// The rule to use has a score of at least 60, and every other rule with such a score has a lower
/// one, or the same one with a higher priority, or the same priority with an id that comes later,
/// or the same id and stands further in front.
pub proof fn law_best_rule_is_preferred(rules: Seq<Rule>, incident: Seq<char>, i: int)
    ensures
        best_for(rules, incident, i) <==> {
            &&& 0 <= i < rules.len()
            &&& rule_score(rules[i], incident) is Some
            &&& rule_score(rules[i], incident)->0 >= 60
            &&& forall|j: int|
                0 <= j < rules.len() && j != i && rule_score(
                    #[trigger] rules[j],
                    incident,
                ) is Some && rule_score(rules[j], incident)->0 >= 60 ==> {
                    let (x, y) = (
                        rule_score(rules[i], incident)->0,
                        rule_score(rules[j], incident)->0,
                    );
                    ||| y < x
                    ||| y == x && rules[j].priority > rules[i].priority
                    ||| y == x && rules[j].priority == rules[i].priority && text::text_precedes(
                        rules[i].id@,
                        rules[j].id@,
                    )
                    ||| y == x && rules[j].priority == rules[i].priority && rules[j].id@
                        == rules[i].id@ && j < i
                }
        },
{
    let scores = rule_scores(rules, incident);
    assert forall|j: int| 0 <= j < rules.len() implies #[trigger] scores[j] == rule_score(
        rules[j],
        incident,
    ) by {}
    if best_for(rules, incident, i) {
        assert forall|j: int|
            0 <= j < rules.len() && j != i && rule_score(#[trigger] rules[j], incident) is Some
                && rule_score(rules[j], incident)->0 >= 60 implies preferred(
            rules,
            scores,
            i,
            j,
        ) by {
            assert(eligible(scores[j]));
        }
    }
}

/// There is a rule to use exactly when some rule has a score of at least 60.
pub proof fn law_some_rule_is_best(rules: Seq<Rule>, incident: Seq<char>)
    ensures
        (exists|i: int| best_for(rules, incident, i)) <==> exists|j: int|
            0 <= j < rules.len() && rule_score(#[trigger] rules[j], incident) is Some && rule_score(
                rules[j],
                incident,
            )->0 >= 60,
        no_rule_for(rules, incident) <==> !exists|i: int| best_for(rules, incident, i),
{
    let scores = rule_scores(rules, incident);
    if exists|i: int| best_for(rules, incident, i) {
        let i = choose|i: int| best_for(rules, incident, i);
        assert(scores[i] == rule_score(rules[i], incident));
        assert(rule_score(rules[i], incident) is Some);
        assert(eligible(scores[i]));
    }
    if exists|j: int|
        0 <= j < rules.len() && rule_score(#[trigger] rules[j], incident) is Some && rule_score(
            rules[j],
            incident,
        )->0 >= 60 {
        let j = choose|j: int|
            0 <= j < rules.len() && rule_score(#[trigger] rules[j], incident) is Some && rule_score(
                rules[j],
                incident,
            )->0 >= 60;
        assert(eligible(scores[j]));
        let i = lemma_best_of_the_first(rules, scores, rules.len() as int, j);
        assert(best_for(rules, incident, i));
    } else {
        assert forall|j: int| 0 <= j < scores.len() implies !eligible(#[trigger] scores[j]) by {
            assert(scores[j] == rule_score(rules[j], incident));
        }
    }
}

/// Of the first `n` rules, one of which is eligible, one is preferred to all others.
proof fn lemma_best_of_the_first(rules: Seq<Rule>, scores: Seq<Option<int>>, n: int, j: int) -> (i: int)
    requires
        0 <= j < n <= rules.len(),
        eligible(scores[j]),
    ensures
        0 <= i < n,
        eligible(scores[i]),
        forall|k: int|
            0 <= k < n && k != i && eligible(#[trigger] scores[k]) ==> preferred(
                rules,
                scores,
                i,
                k,
            ),
    decreases n,
{
    let last = n - 1;
    if exists|k: int| 0 <= k < last && eligible(#[trigger] scores[k]) {
        let k = choose|k: int| 0 <= k < last && eligible(#[trigger] scores[k]);
        let i = lemma_best_of_the_first(rules, scores, last, k);
        if !eligible(scores[last]) {
            i
        } else {
            text::lemma_order_total(rules[i].id@, rules[last].id@);
            if preferred(rules, scores, i, last) {
                i
            } else {
                assert(preferred(rules, scores, last, i));
                assert forall|k: int|
                    0 <= k < n && k != last && eligible(#[trigger] scores[k]) implies preferred(
                    rules,
                    scores,
                    last,
                    k,
                ) by {
                    if k != i {
                        lemma_preferred_transitive(rules, scores, last, i, k);
                    }
                }
                last
            }
        }
    } else {
        j
    }
}

/// What is returned is the rule to use with its score, and nothing only where there is none.
pub proof fn law_best_rule_is_returned(rules: &[Rule], incident: &str, r: Option<(&Rule, i32)>)
    requires
        call_ensures(best_rule, (rules, incident), r),
    ensures
        r is Some <==> exists|j: int|
            0 <= j < rules@.len() && rule_score(#[trigger] rules@[j], incident@) is Some
                && rule_score(rules@[j], incident@)->0 >= 60,
        r matches Some((rule, s)) ==> s == rule_score(*rule, incident@)->0 && exists|i: int|
            #![trigger rules@[i]]
            best_for(rules@, incident@, i) && *rule == rules@[i],
{
    law_some_rule_is_best(rules@, incident@);
}

/// A normalized line holds a marker word exactly when it holds one of these, with the spaces that
/// belong to them, where the ends of the line count as spaces.
pub proof fn law_markers(line: &str, r: bool)
    requires
        call_ensures(has_marker, (line,), r),
    ensures
        r == marked(line@),
        r == ({
            let padded = seq![' '] + line@ + seq![' '];
            ||| text::occurs(" error "@, padded)
            ||| text::occurs(" critical "@, padded)
            ||| text::occurs(" fatal "@, padded)
            ||| text::occurs(" exception "@, padded)
            ||| text::occurs(" panic "@, padded)
            ||| text::occurs(" failed "@, padded)
            ||| text::occurs(" failure "@, padded)
            ||| text::occurs(" fatal:"@, padded)
            ||| text::occurs(" traceback"@, padded)
            ||| text::occurs(" stack trace"@, padded)
            ||| text::occurs(" crash"@, padded)
            ||| text::occurs(" crashed"@, padded)
            ||| text::occurs(" oom"@, padded)
            ||| text::occurs(" out-of-memory"@, padded)
        }),
{
    let padded = seq![' '] + line@ + seq![' '];
    reveal_strlit(" ");
    assert(" "@ == seq![' ']);
    assert(padded == " "@ + line@ + " "@);
    let m = incident_markers();
    if marked(line@) {
        let k = choose|k: int| 0 <= k < m.len() && text::occurs(#[trigger] m[k], padded);
        assert(m[k] == m[0] || m[k] == m[1] || m[k] == m[2] || m[k] == m[3] || m[k] == m[4] || m[k]
            == m[5] || m[k] == m[6] || m[k] == m[7] || m[k] == m[8] || m[k] == m[9] || m[k] == m[10]
            || m[k] == m[11] || m[k] == m[12] || m[k] == m[13]);
    } else {
        assert(!text::occurs(m[0], padded) && !text::occurs(m[1], padded) && !text::occurs(
            m[2],
            padded,
        ) && !text::occurs(m[3], padded) && !text::occurs(m[4], padded) && !text::occurs(
            m[5],
            padded,
        ) && !text::occurs(m[6], padded) && !text::occurs(m[7], padded) && !text::occurs(
            m[8],
            padded,
        ) && !text::occurs(m[9], padded) && !text::occurs(m[10], padded) && !text::occurs(
            m[11],
            padded,
        ) && !text::occurs(m[12], padded) && !text::occurs(m[13], padded));
    }
}

/// A line tells of an incident exactly when something stands in it and either an error pattern of
/// some rule does, or its normal form holds a marker word.
pub proof fn law_incidents(line: &str, rules: &[Rule], normal: &str, marker: bool, r: bool)
    requires
        call_ensures(looks_like_incident, (line, rules), r),
        call_ensures(has_marker, (normal,), marker),
        normal@ == normalize::normalized(line@),
    ensures
        r == incident(rules@, line@),
        r == (normal@.len() > 0 && (marker || exists|i: int, k: int|
            0 <= i < rules@.len() && 0 <= k < rules@[i].error_patterns@.len()
                && normalize::matches_normalized(
                line@,
                (#[trigger] rules@[i].error_patterns@[k])@,
            ))),
{
    lemma_known(rules@, line@);
}

proof fn lemma_known(rules: Seq<Rule>, line: Seq<char>)
    ensures
        known(rules, line) <==> exists|i: int, k: int|
            0 <= i < rules.len() && 0 <= k < rules[i].error_patterns@.len()
                && normalize::matches_normalized(
                line,
                (#[trigger] rules[i].error_patterns@[k])@,
            ),
{
    let fits = |p: Seq<char>| normalize::matches_normalized(line, p);
    if known(rules, line) {
        let i = choose|i: int|
            0 <= i < rules.len() && rule_score(#[trigger] rules[i], line) is Some;
        let patterns = rules[i].error_patterns@;
        scoring::lemma_hits_positive(patterns, fits);
        let k = choose|k: int| 0 <= k < patterns.len() && fits((#[trigger] patterns[k])@);
        assert(normalize::matches_normalized(line, rules[i].error_patterns@[k]@));
    }
    if exists|i: int, k: int|
        0 <= i < rules.len() && 0 <= k < rules[i].error_patterns@.len()
            && normalize::matches_normalized(line, (#[trigger] rules[i].error_patterns@[k])@) {
        let (i, k) = choose|i: int, k: int|
            0 <= i < rules.len() && 0 <= k < rules[i].error_patterns@.len()
                && normalize::matches_normalized(line, (#[trigger] rules[i].error_patterns@[k])@);
        let patterns = rules[i].error_patterns@;
        assert(fits(patterns[k]@));
        scoring::lemma_hits_positive(patterns, fits);
        assert(rule_score(rules[i], line) is Some);
    }
}

/// By given scores the rule is picked that has the highest one, which must be at least 60; among
/// those the one with the lowest priority; among those the one whose id comes first; and among those
/// the last.
pub proof fn law_picks(rules: &[Rule], scores: &Vec<Option<i32>>, r: Option<usize>)
    requires
        rules@.len() == scores@.len(),
        call_ensures(pick_best, (rules, scores), r),
    ensures
        r is None <==> forall|j: int|
            0 <= j < scores@.len() && (#[trigger] scores@[j]) is Some ==> scores@[j]->0 < 60,
        r matches Some(i) ==> {
            &&& i < rules@.len()
            &&& scores@[i as int] is Some
            &&& scores@[i as int]->0 >= 60
            &&& forall|j: int|
                0 <= j < rules@.len() && j != i && (#[trigger] scores@[j]) is Some && scores@[j]->0
                    >= 60 ==> {
                    let (x, y) = (scores@[i as int]->0, scores@[j]->0);
                    let (a, b) = (rules@[i as int], rules@[j]);
                    ||| y < x
                    ||| y == x && b.priority > a.priority
                    ||| y == x && b.priority == a.priority && text::text_precedes(a.id@, b.id@)
                    ||| y == x && b.priority == a.priority && b.id@ == a.id@ && j < i
                }
        },
{
    let s = score_values(scores@);
    assert forall|j: int| 0 <= j < scores@.len() implies #[trigger] s[j] == scoring::score_value(
        scores@[j],
    ) by {}
    match r {
        Some(i) => {
            assert(s[i as int] == scoring::score_value(scores@[i as int]));
            assert forall|j: int|
                0 <= j < rules@.len() && j != i && (#[trigger] scores@[j]) is Some && scores@[j]->0
                    >= 60 implies preferred(rules@, s, i as int, j) by {
                assert(eligible(s[j]));
            }
        },
        None => {
            assert forall|j: int|
                0 <= j < scores@.len() && (#[trigger] scores@[j]) is Some implies scores@[j]->0
                < 60 by {
                assert(!eligible(s[j]));
            }
        },
    }
}

} // verus!
