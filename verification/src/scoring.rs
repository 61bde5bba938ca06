//! How well a rule fits an incident.

use crate::normalize;
use vstd::prelude::*;
use vstd::string::*;

verus! {

/// The lowest score with which a rule is chosen.
pub const MIN_MATCH_SCORE: i32 = 60;

/// `n` brought into the range from `low` to `high`.
pub open spec fn clamped(n: int, low: int, high: int) -> int {
    if n < low {
        low
    } else if n > high {
        high
    } else {
        n
    }
}

/// The score of a rule of which `errors` error patterns and `contexts` context patterns stand in
/// the incident: none without an error pattern; else 60 points for the first of them, 10 for each
/// further one and for each context pattern, and the priority, brought into the range from -20
/// to 20. The sum is brought into the range from 0 to 100.
pub open spec fn points(errors: nat, contexts: nat, priority: i32) -> Option<int> {
    if errors == 0 {
        None
    } else {
        Some(
            clamped(
                60 + (errors - 1) * 10 + contexts * 10 + clamped(priority as int, -20, 20),
                0,
                100,
            ),
        )
    }
}

/// The score as an integer of the model.
pub open spec fn score_value(r: Option<i32>) -> Option<int> {
    match r {
        Some(n) => Some(n as int),
        None => None,
    }
}

/// The score of a rule by the number of its patterns that stand in the incident, however many
/// they are.
pub fn match_points(errors: usize, contexts: usize, priority: i32) -> (r: Option<i32>)
    ensures
        score_value(r) == points(errors as nat, contexts as nat, priority),
{
    if errors == 0 {
        return None;
    }
    let bounded: i128 = if priority < -20 {
        -20
    } else if priority > 20 {
        20
    } else {
        priority as i128
    };
    let sum: i128 = 60 + (errors - 1) as i128 * 10 + contexts as i128 * 10 + bounded;
    let score: i32 = if sum < 0 {
        0
    } else if sum > 100 {
        100
    } else {
        sum as i32
    };
    Some(score)
}

/// How many of the patterns fulfil `fits`.
pub open spec fn hits(patterns: Seq<String>, fits: spec_fn(Seq<char>) -> bool) -> nat
    decreases patterns.len(),
{
    if patterns.len() == 0 {
        0
    } else {
        hits(patterns.drop_last(), fits) + (if fits(patterns.last()@) {
            1nat
        } else {
            0nat
        })
    }
}

/// How many of the patterns stand in `text`, letter case and amounts of white space aside.
pub open spec fn normalized_hits(patterns: Seq<String>, text: Seq<char>) -> nat {
    hits(patterns, |p: Seq<char>| normalize::matches_normalized(text, p))
}

/// How many of the patterns stand in `text`, letter case aside.
pub open spec fn caseless_hits(patterns: Seq<String>, text: Seq<char>) -> nat {
    hits(patterns, |p: Seq<char>| normalize::matches_caseless(text, p))
}

/// Counts the patterns that stand in `text`, letter case and amounts of white space aside.
pub fn count_normalized(patterns: &Vec<String>, text: &str) -> (r: usize)
    ensures
        r == normalized_hits(patterns@, text@),
{
    let mut n: usize = 0;
    for i in 0..patterns.len()
        invariant
            n <= i,
            n == normalized_hits(patterns@.take(i as int), text@),
    {
        assert(patterns@.take(i + 1).drop_last() == patterns@.take(i as int));
        if normalize::contains_normalized(text, patterns[i].as_str()) {
            n = n + 1;
        }
    }
    assert(patterns@.take(patterns@.len() as int) == patterns@);
    n
}

/// Counts the patterns that stand in `text`, letter case aside.
pub fn count_case_insensitive(patterns: &Vec<String>, text: &str) -> (r: usize)
    ensures
        r == caseless_hits(patterns@, text@),
{
    let mut n: usize = 0;
    for i in 0..patterns.len()
        invariant
            n <= i,
            n == caseless_hits(patterns@.take(i as int), text@),
    {
        assert(patterns@.take(i + 1).drop_last() == patterns@.take(i as int));
        if normalize::contains_case_insensitive(text, patterns[i].as_str()) {
            n = n + 1;
        }
    }
    assert(patterns@.take(patterns@.len() as int) == patterns@);
    n
}

/// Some pattern fits exactly when the count of those that do is not zero.
pub proof fn lemma_hits_positive(patterns: Seq<String>, fits: spec_fn(Seq<char>) -> bool)
    ensures
        hits(patterns, fits) > 0 <==> exists|i: int|
            0 <= i < patterns.len() && fits((#[trigger] patterns[i])@),
    decreases patterns.len(),
{
    if patterns.len() > 0 {
        let rest = patterns.drop_last();
        lemma_hits_positive(rest, fits);
        if hits(rest, fits) > 0 {
            let i = choose|i: int| 0 <= i < rest.len() && fits((#[trigger] rest[i])@);
            assert(fits(patterns[i]@));
        }
        if fits(patterns.last()@) {
            assert(fits(patterns[patterns.len() - 1]@));
        }
        if exists|i: int| 0 <= i < patterns.len() && fits((#[trigger] patterns[i])@) {
            let i = choose|i: int| 0 <= i < patterns.len() && fits((#[trigger] patterns[i])@);
            if i < rest.len() {
                assert(fits(rest[i]@));
            }
        }
    }
}

/// A score lies between 40 and 100, and there is one exactly when an error pattern fits.
pub proof fn law_score_range(errors: nat, contexts: nat, priority: i32)
    ensures
        points(errors, contexts, priority) is Some <==> errors > 0,
        points(errors, contexts, priority) matches Some(n) ==> 40 <= n <= 100,
{
}

/// Further matching patterns and a higher priority never lower a score.
pub proof fn law_score_is_monotone(
    errors: nat,
    contexts: nat,
    priority: i32,
    more_errors: nat,
    more_contexts: nat,
    higher_priority: i32,
)
    requires
        0 < errors <= more_errors,
        contexts <= more_contexts,
        priority <= higher_priority,
    ensures
        points(errors, contexts, priority)->0 <= points(
            more_errors,
            more_contexts,
            higher_priority,
        )->0,
{
}

/// A rule with a priority that is not negative is eligible as soon as one of its error patterns
/// fits.
pub proof fn law_one_error_pattern_suffices(errors: nat, contexts: nat, priority: i32)
    requires
        errors > 0,
        priority >= 0,
    ensures
        points(errors, contexts, priority)->0 >= MIN_MATCH_SCORE,
{
}

/// Each further pattern that stands in the incident, be it an error or a context pattern, adds ten
/// points, up to a hundred in all.
pub proof fn law_each_match_adds_ten(errors: nat, contexts: nat, priority: i32)
    requires
        errors > 0,
    ensures
        points(errors, contexts, priority)->0 <= 90 ==> points(errors, contexts + 1, priority)
            == Some(points(errors, contexts, priority)->0 + 10) && points(
            errors + 1,
            contexts,
            priority,
        ) == Some(points(errors, contexts, priority)->0 + 10),
        points(errors, contexts, priority)->0 > 90 ==> points(errors, contexts + 1, priority)
            == Some(100int) && points(errors + 1, contexts, priority) == Some(100int),
{
}

/// A single error pattern counts 60 points, and the priority is added, as far as it lies between
/// -20 and 20. Without an error pattern nothing counts.
pub proof fn law_one_match_counts_sixty(contexts: nat, priority: i32)
    ensures
        -20 <= priority <= 20 ==> points(1, 0, priority) == Some(60 + priority),
        priority < -20 ==> points(1, 0, priority) == Some(40int),
        priority > 20 ==> points(1, 0, priority) == Some(80int),
        points(0, contexts, priority) is None,
        MIN_MATCH_SCORE == 60,
{
}

/// The score that is computed is the one that is meant.
pub proof fn law_computed_scores(errors: usize, contexts: usize, priority: i32, r: Option<i32>)
    requires
        call_ensures(match_points, (errors, contexts, priority), r),
    ensures
        r is Some <==> errors > 0,
        r matches Some(n) ==> n == points(errors as nat, contexts as nat, priority)->0,
{
}

/// Patterns are counted one by one: a further one adds one to the count where it stands in the text,
/// and else nothing.
pub proof fn law_patterns_are_counted_one_by_one(patterns: Seq<String>, p: String, text: Seq<char>)
    ensures
        normalized_hits(patterns.push(p), text) == normalized_hits(patterns, text) + (
        if normalize::matches_normalized(text, p@) {
            1int
        } else {
            0
        }),
        caseless_hits(patterns.push(p), text) == caseless_hits(patterns, text) + (
        if normalize::matches_caseless(text, p@) {
            1int
        } else {
            0
        }),
        patterns.len() == 0 ==> normalized_hits(patterns, text) == 0 && caseless_hits(patterns, text)
            == 0,
{
    assert(patterns.push(p).drop_last() == patterns);
}

/// The counts that are made are those that are meant.
pub proof fn law_computed_counts(patterns: &Vec<String>, text: &str, n: usize, m: usize)
    requires
        call_ensures(count_normalized, (patterns, text), n),
        call_ensures(count_case_insensitive, (patterns, text), m),
    ensures
        n == normalized_hits(patterns@, text@),
        m == caseless_hits(patterns@, text@),
{
}

} // verus!
