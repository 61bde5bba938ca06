//! Which rule fits an incident.

use crate::normalize;
use crate::scoring;
use crate::scoring::MIN_MATCH_SCORE;
use crate::standalone::rule::Rule;
use crate::text;
use crate::unicode;
use vstd::prelude::*;
use vstd::string::*;

verus! {

/// The score of a rule for an incident.
pub open spec fn rule_score(rule: Rule, incident: Seq<char>) -> Option<int> {
    scoring::points(
        scoring::caseless_hits(rule.error_patterns@, incident),
        scoring::caseless_hits(rule.context_patterns@, incident),
        rule.priority,
    )
}

/// The score of a rule for an incident.
pub fn calculate_match_score(rule: &Rule, incident: &str) -> (r: Option<i32>)
    ensures
        scoring::score_value(r) == rule_score(*rule, incident@),
{
    let errors = scoring::count_case_insensitive(&rule.error_patterns, incident);
    if errors == 0 {
        return None;
    }
    let contexts = scoring::count_case_insensitive(&rule.context_patterns, incident);
    scoring::match_points(errors, contexts, rule.priority)
}

/// Whether the score of a rule is high enough for it to be chosen.
pub open spec fn eligible(rule: Rule, incident: Seq<char>) -> bool {
    rule_score(rule, incident) matches Some(n) && n >= MIN_MATCH_SCORE
}

/// An id in lower case.
pub open spec fn lower_id(rule: Rule) -> Seq<char> {
    unicode::lowercase(rule.id@)
}

/// Whether the rule at `i` is preferred to the one at `j`, both being eligible: by the higher
/// score; then by the id that comes first, letter case aside; then by standing further in front.
pub open spec fn preferred(rules: Seq<Rule>, incident: Seq<char>, i: int, j: int) -> bool {
    let (a, b) = (rules[i], rules[j]);
    let (x, y) = (rule_score(a, incident)->0, rule_score(b, incident)->0);
    ||| x > y
    ||| x == y && text::text_precedes(lower_id(a), lower_id(b))
    ||| x == y && lower_id(a) == lower_id(b) && i < j
}

/// Whether the rule at `i` is the one to use for an incident.
pub open spec fn best_for(rules: Seq<Rule>, incident: Seq<char>, i: int) -> bool {
    &&& 0 <= i < rules.len()
    &&& eligible(rules[i], incident)
    &&& forall|j: int|
        0 <= j < rules.len() && j != i && eligible(#[trigger] rules[j], incident) ==> preferred(
            rules,
            incident,
            i,
            j,
        )
}

/// Whether no rule can be used for an incident.
pub open spec fn no_rule_for(rules: Seq<Rule>, incident: Seq<char>) -> bool {
    forall|j: int| 0 <= j < rules.len() ==> !eligible(#[trigger] rules[j], incident)
}

proof fn lemma_preferred_transitive(
    rules: Seq<Rule>,
    incident: Seq<char>,
    i: int,
    j: int,
    k: int,
)
    requires
        preferred(rules, incident, i, j),
        preferred(rules, incident, j, k),
    ensures
        preferred(rules, incident, i, k),
{
    let (a, b, c) = (lower_id(rules[i]), lower_id(rules[j]), lower_id(rules[k]));
    if text::text_precedes(a, b) && text::text_precedes(b, c) {
        text::lemma_order_transitive(a, b, c);
    }
}

/// The position and the score of the rule to use for an incident.
pub fn best_position(rules: &[Rule], incident: &str) -> (r: Option<(usize, i32)>)
    ensures
        match r {
            Some((i, s)) => best_for(rules@, incident@, i as int) && rule_score(
                rules@[i as int],
                incident@,
            ) == Some(s as int),
            None => no_rule_for(rules@, incident@),
        },
{
    let mut best: Option<(usize, i32)> = None;
    for j in 0..rules.len()
        invariant
            match best {
                Some((i, x)) => {
                    &&& i < j
                    &&& rule_score(rules@[i as int], incident@) == Some(x as int)
                    &&& eligible(rules@[i as int], incident@)
                    &&& forall|k: int|
                        0 <= k < j && k != i && eligible(#[trigger] rules@[k], incident@)
                            ==> preferred(rules@, incident@, i as int, k)
                },
                None => forall|k: int| 0 <= k < j ==> !eligible(#[trigger] rules@[k], incident@),
            },
    {
        if let Some(score) = calculate_match_score(&rules[j], incident) {
            if score >= MIN_MATCH_SCORE {
                match best {
                    None => {
                        best = Some((j, score));
                    },
                    Some((i, current)) => {
                        let mine = rules[j].id.as_str().to_lowercase();
                        let other = rules[i].id.as_str().to_lowercase();
                        proof {
                            text::lemma_order_total(other@, mine@);
                        }
                        if score > current || (score == current && text::precedes(
                            mine.as_str(),
                            other.as_str(),
                        )) {
                            assert(preferred(rules@, incident@, j as int, i as int));
                            assert forall|k: int|
                                0 <= k < j && k != i && eligible(
                                    #[trigger] rules@[k],
                                    incident@,
                                ) implies preferred(rules@, incident@, j as int, k) by {
                                lemma_preferred_transitive(
                                    rules@,
                                    incident@,
                                    j as int,
                                    i as int,
                                    k,
                                );
                            }
                            best = Some((j, score));
                        } else {
                            assert(preferred(rules@, incident@, i as int, j as int));
                        }
                    },
                }
            }
        }
    }
    best
}

/// The rule to use for an incident, and its score.
pub fn find_best_rule<'a>(rules: &'a [Rule], incident: &str) -> (r: Option<(&'a Rule, i32)>)
    ensures
        match r {
            Some((rule, s)) => exists|i: int|
                #![trigger rules@[i]]
                best_for(rules@, incident@, i) && *rule == rules@[i] && rule_score(
                    rules@[i],
                    incident@,
                ) == Some(s as int),
            None => no_rule_for(rules@, incident@),
        },
{
    match best_position(rules, incident) {
        Some((i, s)) => {
            assert(best_for(rules@, incident@, i as int));
            Some((&rules[i], s))
        },
        None => None,
    }
}

/// At most one rule is the best.
pub proof fn law_best_rule_is_unique(rules: Seq<Rule>, incident: Seq<char>, i: int, j: int)
    requires
        best_for(rules, incident, i),
        best_for(rules, incident, j),
    ensures
        i == j,
{
    if i != j {
        assert(eligible(rules[i], incident) && eligible(rules[j], incident));
        assert(preferred(rules, incident, i, j));
        assert(preferred(rules, incident, j, i));
        lemma_preferred_transitive(rules, incident, i, j, i);
        text::lemma_order_irreflexive(lower_id(rules[i]));
    }
}

/// A rule has a score for an incident exactly when one of its error patterns stands there. The score
/// is that of the number of its error patterns and of its context patterns which do, with its
/// priority.
pub proof fn law_scores(rule: &Rule, incident: &str, r: Option<i32>)
    requires
        call_ensures(calculate_match_score, (rule, incident), r),
    ensures
        r is Some <==> exists|k: int|
            0 <= k < rule.error_patterns@.len() && normalize::matches_caseless(
                incident@,
                (#[trigger] rule.error_patterns@[k])@,
            ),
        r is Some <==> rule_score(*rule, incident@) is Some,
        r matches Some(n) ==> n == rule_score(*rule, incident@)->0 && n == scoring::points(
            scoring::caseless_hits(rule.error_patterns@, incident@),
            scoring::caseless_hits(rule.context_patterns@, incident@),
            rule.priority,
        )->0,
{
    let fits = |p: Seq<char>| normalize::matches_caseless(incident@, p);
    let patterns = rule.error_patterns@;
    scoring::lemma_hits_positive(patterns, fits);
    if scoring::caseless_hits(patterns, incident@) > 0 {
        let k = choose|k: int| 0 <= k < patterns.len() && fits((#[trigger] patterns[k])@);
        assert(normalize::matches_caseless(incident@, patterns[k]@));
    }
    if exists|k: int|
        0 <= k < patterns.len() && normalize::matches_caseless(
            incident@,
            (#[trigger] patterns[k])@,
        ) {
        let k = choose|k: int|
            0 <= k < patterns.len() && normalize::matches_caseless(
                incident@,
                (#[trigger] patterns[k])@,
            );
        assert(fits(patterns[k]@));
    }
}

/// A further context pattern adds ten points to the score of a rule where it stands in the incident,
/// up to a hundred in all, and else nothing. So does a further error pattern, once there is a score.
pub proof fn law_further_patterns_raise_the_score(
    rule: Rule,
    longer: Rule,
    p: String,
    incident: Seq<char>,
)
    requires
        rule_score(rule, incident) is Some,
        longer.priority == rule.priority,
        (longer.error_patterns@ == rule.error_patterns@ && longer.context_patterns@
            == rule.context_patterns@.push(p)) || (longer.error_patterns@
            == rule.error_patterns@.push(p) && longer.context_patterns@ == rule.context_patterns@),
    ensures
        !normalize::matches_caseless(incident, p@) ==> rule_score(longer, incident) == rule_score(
            rule,
            incident,
        ),
        normalize::matches_caseless(incident, p@) && rule_score(rule, incident)->0 <= 90
            ==> rule_score(longer, incident) == Some(rule_score(rule, incident)->0 + 10),
        normalize::matches_caseless(incident, p@) && rule_score(rule, incident)->0 > 90
            ==> rule_score(longer, incident) == Some(100int),
{
    scoring::law_patterns_are_counted_one_by_one(rule.context_patterns@, p, incident);
    scoring::law_patterns_are_counted_one_by_one(rule.error_patterns@, p, incident);
    scoring::law_each_match_adds_ten(
        scoring::caseless_hits(rule.error_patterns@, incident),
        scoring::caseless_hits(rule.context_patterns@, incident),
        rule.priority,
    );
}

/// A rule with a single error pattern, which stands in the incident, and no context patterns has a
/// score of 60 and its priority, as far as that lies between -20 and 20.
pub proof fn law_score_of_a_single_pattern(rule: Rule, p: String, incident: Seq<char>)
    requires
        rule.error_patterns@ == seq![p],
        rule.context_patterns@.len() == 0,
        normalize::matches_caseless(incident, p@),
    ensures
        -20 <= rule.priority <= 20 ==> rule_score(rule, incident) == Some(60 + rule.priority),
        rule.priority < -20 ==> rule_score(rule, incident) == Some(40int),
        rule.priority > 20 ==> rule_score(rule, incident) == Some(80int),
{
    let none = Seq::<String>::empty();
    scoring::law_patterns_are_counted_one_by_one(none, p, incident);
    scoring::law_patterns_are_counted_one_by_one(rule.context_patterns@, p, incident);
    assert(none.push(p) == rule.error_patterns@);
    scoring::law_one_match_counts_sixty(0, rule.priority);
}

/// The rule to use has a score of at least 60, and every other rule with such a score has a lower
/// one, or the same one with an id that comes later, letter case aside, or the same id and stands
/// further back.
pub proof fn law_best_rule_is_preferred(rules: Seq<Rule>, incident: Seq<char>, i: int)
    ensures
        best_for(rules, incident, i) <==> {
            &&& 0 <= i < rules.len()
            &&& rule_score(rules[i], incident) is Some
            &&& rule_score(rules[i], incident)->0 >= 60
            &&& forall|j: int|
                0 <= j < rules.len() && j != i && rule_score(
                    #[trigger] rules[j],
                    incident,
                ) is Some && rule_score(rules[j], incident)->0 >= 60 ==> {
                    let (x, y) = (
                        rule_score(rules[i], incident)->0,
                        rule_score(rules[j], incident)->0,
                    );
                    ||| y < x
                    ||| y == x && text::text_precedes(
                        unicode::lowercase(rules[i].id@),
                        unicode::lowercase(rules[j].id@),
                    )
                    ||| y == x && unicode::lowercase(rules[i].id@) == unicode::lowercase(
                        rules[j].id@,
                    ) && i < j
                }
        },
{
    if best_for(rules, incident, i) {
        assert forall|j: int|
            0 <= j < rules.len() && j != i && rule_score(#[trigger] rules[j], incident) is Some
                && rule_score(rules[j], incident)->0 >= 60 implies preferred(
            rules,
            incident,
            i,
            j,
        ) by {
            assert(eligible(rules[j], incident));
        }
    }
}

/// There is a rule to use exactly when some rule has a score of at least 60.
pub proof fn law_some_rule_is_best(rules: Seq<Rule>, incident: Seq<char>)
    ensures
        (exists|i: int| best_for(rules, incident, i)) <==> exists|j: int|
            0 <= j < rules.len() && rule_score(#[trigger] rules[j], incident) is Some && rule_score(
                rules[j],
                incident,
            )->0 >= 60,
        no_rule_for(rules, incident) <==> !exists|i: int| best_for(rules, incident, i),
{
    if exists|i: int| best_for(rules, incident, i) {
        let i = choose|i: int| best_for(rules, incident, i);
        assert(eligible(rules[i], incident));
    }
    if exists|j: int|
        0 <= j < rules.len() && rule_score(#[trigger] rules[j], incident) is Some && rule_score(
            rules[j],
            incident,
        )->0 >= 60 {
        let j = choose|j: int|
            0 <= j < rules.len() && rule_score(#[trigger] rules[j], incident) is Some && rule_score(
                rules[j],
                incident,
            )->0 >= 60;
        assert(eligible(rules[j], incident));
        let i = lemma_best_of_the_first(rules, incident, rules.len() as int, j);
        assert(best_for(rules, incident, i));
    }
}

/// Of the first `n` rules, one of which is eligible, one is preferred to all others.
proof fn lemma_best_of_the_first(rules: Seq<Rule>, incident: Seq<char>, n: int, j: int) -> (i: int)
    requires
        0 <= j < n <= rules.len(),
        eligible(rules[j], incident),
    ensures
        0 <= i < n,
        eligible(rules[i], incident),
        forall|k: int|
            0 <= k < n && k != i && eligible(#[trigger] rules[k], incident) ==> preferred(
                rules,
                incident,
                i,
                k,
            ),
    decreases n,
{
    let last = n - 1;
    if exists|k: int| 0 <= k < last && eligible(#[trigger] rules[k], incident) {
        let k = choose|k: int| 0 <= k < last && eligible(#[trigger] rules[k], incident);
        let i = lemma_best_of_the_first(rules, incident, last, k);
        if !eligible(rules[last], incident) {
            i
        } else {
            text::lemma_order_total(lower_id(rules[i]), lower_id(rules[last]));
            if preferred(rules, incident, i, last) {
                i
            } else {
                assert(preferred(rules, incident, last, i));
                assert forall|k: int|
                    0 <= k < n && k != last && eligible(
                        #[trigger] rules[k],
                        incident,
                    ) implies preferred(rules, incident, last, k) by {
                    if k != i {
                        lemma_preferred_transitive(rules, incident, last, i, k);
                    }
                }
                last
            }
        }
    } else {
        j
    }
}

/// What is returned is the rule to use with its score, and nothing only where there is none.
pub proof fn law_best_rule_is_returned(rules: &[Rule], incident: &str, r: Option<(&Rule, i32)>)
    requires
        call_ensures(find_best_rule, (rules, incident), r),
    ensures
        r is Some <==> exists|j: int|
            0 <= j < rules@.len() && rule_score(#[trigger] rules@[j], incident@) is Some
                && rule_score(rules@[j], incident@)->0 >= 60,
        r matches Some((rule, s)) ==> s == rule_score(*rule, incident@)->0 && exists|i: int|
            #![trigger rules@[i]]
            best_for(rules@, incident@, i) && *rule == rules@[i],
{
    law_some_rule_is_best(rules@, incident@);
}

} // verus!
