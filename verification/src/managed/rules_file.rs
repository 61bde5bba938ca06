//! Which of the rules in the rules file are used.

use crate::managed::config;
use crate::managed::rule;
use crate::managed::rule::Remediation;
use crate::managed::rule::Rule;
use crate::order;
use crate::order::Ranked;
use crate::text;
use crate::unicode;
use vstd::hash_set::StringHashSet;
use vstd::prelude::*;
use vstd::string::*;

verus! {

/// What came of reading the rules file.
pub enum RulesRead {
    /// There is no such file.
    Missing,
    /// It could not be read, for this reason.
    Unreadable(String),
    /// It does not hold rules, for this reason.
    Malformed(String),
    /// It holds these rules.
    Parsed(Vec<Rule>),
}

/// The outcome of loading the rules.
pub struct RuleLoadResult {
    pub rules: Vec<Rule>,
    pub files_found: usize,
    pub errors: usize,
}

/// What a rules file holds, by its first character.
pub enum RulesDocument {
    /// A list of rules.
    List,
    /// A single rule.
    Single,
}

/// Tells whether a rules file holds a list of rules or a single one.
pub fn document_kind(contents: &str) -> (r: RulesDocument)
    ensures
        r is List <==> text::trimmed(contents@).len() > 0 && text::trimmed(contents@)[0] == '[',
{
    let chars = text::chars_of(text::trim(contents));
    if chars.len() > 0 && chars[0] == '[' {
        RulesDocument::List
    } else {
        RulesDocument::Single
    }
}

/// What tells rules apart.
pub open spec fn rule_key(r: Rule) -> Seq<char> {
    unicode::lowercase(text::trimmed(r.id@))
}

/// Whether a rule is looked at in this mode: it is enabled, and it does not restart a container in
/// the free mode.
pub open spec fn considered(r: Rule, mode: Seq<char>) -> bool {
    r.enabled && !(r.remediation is ContainerRestart && config::free(mode))
}

/// Whether a rule may be used in this mode.
pub open spec fn admissible(r: Rule, mode: Seq<char>) -> bool {
    considered(r, mode) && rule::fault(r) is None
}

/// The keys of the rules.
pub open spec fn rule_keys(rules: Seq<Rule>) -> Seq<Seq<char>> {
    rules.map_values(|r: Rule| rule_key(r))
}

/// Whether one of the rules has this key.
pub open spec fn key_taken(rules: Seq<Rule>, key: Seq<char>) -> bool {
    rule_keys(rules).contains(key)
}

/// The rules that may be used, the first of each key, in the order in which they stand in the
/// file.
pub open spec fn kept_rules(parsed: Seq<Rule>, mode: Seq<char>) -> Seq<Rule>
    decreases parsed.len(),
{
    if parsed.len() == 0 {
        Seq::empty()
    } else {
        let before = kept_rules(parsed.drop_last(), mode);
        let last = parsed.last();
        if admissible(last, mode) && !key_taken(before, rule_key(last)) {
            before.push(last)
        } else {
            before
        }
    }
}

/// How many of the rules that are looked at are faulty.
pub open spec fn fault_count(parsed: Seq<Rule>, mode: Seq<char>) -> nat
    decreases parsed.len(),
{
    if parsed.len() == 0 {
        0
    } else {
        fault_count(parsed.drop_last(), mode) + (if considered(parsed.last(), mode) && rule::fault(
            parsed.last(),
        ) is Some {
            1nat
        } else {
            0nat
        })
    }
}

/// What is logged about one rule, given those kept before it.
pub open spec fn rule_lines(r: Rule, mode: Seq<char>, before: Seq<Rule>) -> Seq<Seq<char>> {
    if !considered(r, mode) {
        Seq::empty()
    } else {
        match rule::fault(r) {
            Some(e) => seq!["[RULES ERROR] "@ + e],
            None => if key_taken(before, rule_key(r)) {
                seq!["[RULES ERROR] Duplicate rule '"@ + r.id@ + "' ignored"@]
            } else {
                Seq::empty()
            },
        }
    }
}

/// What is logged about the rules of a file.
pub open spec fn selection_lines(parsed: Seq<Rule>, mode: Seq<char>) -> Seq<Seq<char>>
    decreases parsed.len(),
{
    if parsed.len() == 0 {
        Seq::empty()
    } else {
        selection_lines(parsed.drop_last(), mode) + rule_lines(
            parsed.last(),
            mode,
            kept_rules(parsed.drop_last(), mode),
        )
    }
}

/// The rules that may be used and are the first of their key, the number of faulty ones, and
/// what is logged about them.
fn select_rules(parsed: Vec<Rule>, mode: &str) -> (r: (Vec<Rule>, usize, Vec<String>))
    ensures
        r.0@ == kept_rules(parsed@, mode@),
        r.1 == fault_count(parsed@, mode@),
        text::texts(r.2@) == selection_lines(parsed@, mode@),
{
    let ghost all = parsed@;
    let mut rest = parsed;
    let mut kept: Vec<Rule> = Vec::new();
    let mut errors: usize = 0;
    let mut lines: Vec<String> = Vec::new();
    let mut seen = StringHashSet::new();
    let ghost mut n: int = 0;
    let total: usize = rest.len();
    assert(all.skip(0) == all);
    assert(text::texts(lines@) == selection_lines(all.take(0), mode@));
    while rest.len() > 0
        invariant
            0 <= n <= all.len(),
            total == all.len(),
            rest@ == all.skip(n),
            kept@ == kept_rules(all.take(n), mode@),
            errors == fault_count(all.take(n), mode@),
            errors <= n,
            text::texts(lines@) == selection_lines(all.take(n), mode@),
            seen@ == rule_keys(kept@).to_set(),
        decreases rest.len(),
    {
        let r = rest.remove(0);
        let ghost before = kept@;
        let ghost old_lines = lines@;
        proof {
            assert(r == all[n]);
            assert(all.take(n + 1).drop_last() == all.take(n));
            assert(rest@ == all.skip(n + 1));
            n = n + 1;
        }
        let container = match &r.remediation {
            Remediation::ContainerRestart { container: _ } => true,
            _ => false,
        };
        if r.enabled && !(container && config::is_free(mode)) {
            match rule::validate_rule(&r, mode) {
                Err(e) => {
                    lines.push("[RULES ERROR] ".to_owned().concat(e.as_str()));
                    errors = errors + 1;
                },
                Ok(_) => {
                    let key = text::trim(r.id.as_str()).to_lowercase();
                    if seen.insert(key) {
                        kept.push(r);
                        assert(rule_keys(kept@) == rule_keys(before).push(rule_key(r)));
                        proof {
                            rule_keys(before).lemma_push_to_set_commute(rule_key(r));
                        }
                    } else {
                        assert(seen@ == seen@.insert(key@));
                        lines.push(
                            "[RULES ERROR] Duplicate rule '".to_owned().concat(
                                r.id.as_str(),
                            ).concat("' ignored"),
                        );
                    }
                },
            }
        }
        proof {
            if lines@.len() > old_lines.len() {
                assert(text::texts(lines@) == text::texts(old_lines) + seq![lines@.last()@]);
            } else {
                assert(lines@ == old_lines);
                assert(text::texts(old_lines) + Seq::<Seq<char>>::empty() == text::texts(old_lines));
            }
        }
    }
    assert(all.take(all.len() as int) == all);
    (kept, errors, lines)
}

/// What is logged about the loading of the rules from `path`.
pub open spec fn load_lines(path: Seq<char>, read: RulesRead, mode: Seq<char>) -> Seq<Seq<char>> {
    match read {
        RulesRead::Missing => seq!["[RULES ERROR] Missing "@ + path],
        RulesRead::Unreadable(e) => seq!["[RULES ERROR] Cannot read "@ + path + ": "@ + e@],
        RulesRead::Malformed(e) => seq!["[RULES ERROR] Invalid JSON: "@ + e@],
        RulesRead::Parsed(parsed) => selection_lines(parsed@, mode),
    }
}

/// The rules that a read of the rules file gives, before they are put in order.
pub open spec fn usable_rules(read: RulesRead, mode: Seq<char>) -> Seq<Rule> {
    match read {
        RulesRead::Parsed(parsed) => kept_rules(parsed@, mode),
        _ => Seq::empty(),
    }
}

/// How many errors a read of the rules file comes with.
pub open spec fn load_errors(read: RulesRead, mode: Seq<char>) -> nat {
    match read {
        RulesRead::Parsed(parsed) => fault_count(parsed@, mode),
        _ => 1,
    }
}

/// Chooses the rules to use, in order, and says what is to be logged.
pub fn load_rules(path: &str, read: RulesRead, mode: &str) -> (r: (RuleLoadResult, Vec<String>))
    ensures
        order::stable_sort_of(usable_rules(read, mode@), r.0.rules@),
        r.0.files_found == (if read is Parsed || read is Malformed {
            1int
        } else {
            0
        }),
        r.0.errors == load_errors(read, mode@),
        text::texts(r.1@) == load_lines(path@, read, mode@),
{
    let mut lines: Vec<String> = Vec::new();
    let mut rules: Vec<Rule> = Vec::new();
    let mut errors: usize = 1;
    let mut files_found: usize = 0;
    let ghost given = read;
    match read {
        RulesRead::Missing => {
            lines.push("[RULES ERROR] Missing ".to_owned().concat(path));
            assert(text::texts(lines@) == load_lines(path@, given, mode@));
        },
        RulesRead::Unreadable(e) => {
            lines.push(
                "[RULES ERROR] Cannot read ".to_owned().concat(path).concat(": ").concat(
                    e.as_str(),
                ),
            );
            assert(text::texts(lines@) == load_lines(path@, given, mode@));
        },
        RulesRead::Malformed(e) => {
            files_found = 1;
            lines.push("[RULES ERROR] Invalid JSON: ".to_owned().concat(e.as_str()));
            assert(text::texts(lines@) == load_lines(path@, given, mode@));
        },
        RulesRead::Parsed(parsed) => {
            files_found = 1;
            let (kept, faults, said) = select_rules(parsed, mode);
            rules = kept;
            errors = faults;
            lines = said;
        },
    }
    assert(rules@ == usable_rules(given, mode@));
    (RuleLoadResult { rules: order::stable_sort(rules), files_found, errors }, lines)
}

/// Whether newly loaded rules are taken into use: there is a file of them, and they came without an
/// error.
pub open spec fn accepted(loaded: RuleLoadResult) -> bool {
    loaded.errors == 0 && loaded.files_found > 0
}

/// What is logged about a reload.
pub open spec fn reload_text(loaded: RuleLoadResult) -> Seq<char> {
    if accepted(loaded) {
        "[RULES] Reloaded "@ + text::decimal(loaded.rules@.len()) + " active rules"@
    } else {
        "[RULES] Reload rejected; keeping previous valid rule set"@
    }
}

/// The rules in use after a reload: the new ones where they came without an error, else those
/// that were in use before. Also says what is to be logged.
pub fn accept_reload(current: Vec<Rule>, loaded: RuleLoadResult) -> (r: (Vec<Rule>, String))
    ensures
        r.0@ == (if accepted(loaded) {
            loaded.rules@
        } else {
            current@
        }),
        r.1@ == reload_text(loaded),
{
    if loaded.errors == 0 && loaded.files_found > 0 {
        let n = text::decimal_text(loaded.rules.len() as u64);
        let line = "[RULES] Reloaded ".to_owned().concat(n.as_str()).concat(" active rules");
        (loaded.rules, line)
    } else {
        (current, "[RULES] Reload rejected; keeping previous valid rule set".to_owned())
    }
}

/// Every rule that is kept may be used, and no two of them have the same key.
pub proof fn law_kept_rules_are_admissible_and_distinct(parsed: Seq<Rule>, mode: Seq<char>)
    ensures
        forall|i: int|
            0 <= i < kept_rules(parsed, mode).len() ==> admissible(
                #[trigger] kept_rules(parsed, mode)[i],
                mode,
            ),
        forall|i: int, j: int|
            0 <= i < j < kept_rules(parsed, mode).len() ==> rule_key(
                #[trigger] kept_rules(parsed, mode)[i],
            ) != rule_key(#[trigger] kept_rules(parsed, mode)[j]),
    decreases parsed.len(),
{
    if parsed.len() > 0 {
        law_kept_rules_are_admissible_and_distinct(parsed.drop_last(), mode);
        let before = kept_rules(parsed.drop_last(), mode);
        let kept = kept_rules(parsed, mode);
        assert forall|i: int| 0 <= i < kept.len() implies admissible(#[trigger] kept[i], mode) by {
            if i < before.len() {
                assert(kept[i] == before[i]);
            }
        }
        assert forall|i: int, j: int| 0 <= i < j < kept.len() implies rule_key(#[trigger] kept[i])
            != rule_key(#[trigger] kept[j]) by {
            assert(kept[i] == before[i]);
            if j < before.len() {
                assert(kept[j] == before[j]);
            } else {
                assert(rule_keys(before)[i] == rule_key(before[i]));
            }
        }
    }
}

/// Of the rules with one key that may be used, the first is kept.
pub proof fn law_first_rule_of_a_key_is_kept(parsed: Seq<Rule>, mode: Seq<char>, i: int)
    requires
        0 <= i < parsed.len(),
        admissible(parsed[i], mode),
        forall|j: int|
            0 <= j < i && admissible(#[trigger] parsed[j], mode) ==> rule_key(parsed[j])
                != rule_key(parsed[i]),
    ensures
        kept_rules(parsed, mode).contains(parsed[i]),
    decreases parsed.len(),
{
    let rest = parsed.drop_last();
    let before = kept_rules(rest, mode);
    let key = rule_key(parsed[i]);
    if i == parsed.len() - 1 {
        if key_taken(before, key) {
            let k = choose|k: int| 0 <= k < before.len() && rule_key(#[trigger] before[k]) == key;
            lemma_kept_come_from_the_file(rest, mode, k);
            let j = choose|j: int| 0 <= j < rest.len() && #[trigger] rest[j] == before[k];
            law_kept_rules_are_admissible_and_distinct(rest, mode);
            assert(parsed[j] == before[k]);
        }
        let all = kept_rules(parsed, mode);
        assert(all[all.len() - 1] == parsed[i]);
    } else {
        assert(rest[i] == parsed[i]);
        assert forall|j: int| 0 <= j < i && admissible(#[trigger] rest[j], mode) implies rule_key(
            rest[j],
        ) != rule_key(rest[i]) by {
            assert(parsed[j] == rest[j]);
        }
        law_first_rule_of_a_key_is_kept(rest, mode, i);
        let k = choose|k: int| 0 <= k < before.len() && before[k] == parsed[i];
        assert(kept_rules(parsed, mode)[k] == parsed[i]);
    }
}

proof fn lemma_kept_come_from_the_file(parsed: Seq<Rule>, mode: Seq<char>, k: int)
    requires
        0 <= k < kept_rules(parsed, mode).len(),
    ensures
        exists|j: int| 0 <= j < parsed.len() && #[trigger] parsed[j] == kept_rules(parsed, mode)[k],
    decreases parsed.len(),
{
    if parsed.len() > 0 {
        let rest = parsed.drop_last();
        let before = kept_rules(rest, mode);
        if k < before.len() {
            lemma_kept_come_from_the_file(rest, mode, k);
            let j = choose|j: int| 0 <= j < rest.len() && #[trigger] rest[j] == before[k];
            assert(parsed[j] == before[k]);
        } else {
            assert(parsed[parsed.len() - 1] == kept_rules(parsed, mode)[k]);
        }
    }
}

/// Every rule that is loaded may be used, no two of them have the same key, and they stand in the
/// order of their priority and, where that is the same, of their ids.
pub proof fn law_loaded_rules_are_admissible(read: RulesRead, mode: Seq<char>, loaded: Seq<Rule>)
    requires
        order::stable_sort_of(usable_rules(read, mode), loaded),
    ensures
        forall|i: int| 0 <= i < loaded.len() ==> admissible(#[trigger] loaded[i], mode),
        forall|i: int, j: int|
            0 <= i < j < loaded.len() ==> rule_key(#[trigger] loaded[i]) != rule_key(
                #[trigger] loaded[j],
            ),
        forall|i: int, j: int|
            0 <= i < j < loaded.len() ==> (#[trigger] loaded[i]).priority >= (
            #[trigger] loaded[j]).priority,
        forall|i: int, j: int|
            0 <= i < j < loaded.len() && (#[trigger] loaded[i]).priority == (
            #[trigger] loaded[j]).priority ==> loaded[i].id@ == loaded[j].id@ || text::text_precedes(
                loaded[i].id@,
                loaded[j].id@,
            ),
{
    let usable = usable_rules(read, mode);
    if let RulesRead::Parsed(parsed) = read {
        law_kept_rules_are_admissible_and_distinct(parsed@, mode);
    }
    order::law_stable_sort_is_in_order(usable, loaded);
    order::law_stable_sort_keeps_items(usable, loaded);
    assert forall|i: int| 0 <= i < loaded.len() implies admissible(#[trigger] loaded[i], mode) by {
        assert(usable.contains(loaded[i]));
    }
    let key = |r: Rule| rule_key(r);
    order::law_stable_sort_keeps_keys_apart(usable, loaded, key);
    assert forall|i: int, j: int| 0 <= i < j < loaded.len() implies rule_key(#[trigger] loaded[i])
        != rule_key(#[trigger] loaded[j]) by {
        assert(key(loaded[i]) != key(loaded[j]));
    }
    assert forall|i: int, j: int| 0 <= i < j < loaded.len() implies (#[trigger] loaded[i]).priority
        >= (#[trigger] loaded[j]).priority && (loaded[i].priority == loaded[j].priority
        ==> loaded[i].id@ == loaded[j].id@ || text::text_precedes(
        loaded[i].id@,
        loaded[j].id@,
    )) by {
        assert(!loaded[j].ranks_before(&loaded[i]));
        text::lemma_order_total(loaded[i].id@, loaded[j].id@);
    }
}

/// What a further rule in the file does to the rules that are kept: it is kept exactly when it is
/// enabled and valid, is no container restart in the mode `free`, and has an id that differs from
/// those kept before, white space round it and letter case aside.
pub proof fn law_rules_are_kept_one_by_one(parsed: Seq<Rule>, r: Rule, mode: Seq<char>)
    ensures
        kept_rules(Seq::empty(), mode) == Seq::<Rule>::empty(),
        ({
            let before = kept_rules(parsed, mode);
            let usable = r.enabled && !(r.remediation is ContainerRestart && mode == "free"@)
                && rule::fault(r) is None;
            let taken = exists|i: int|
                0 <= i < before.len() && unicode::lowercase(
                    text::trimmed((#[trigger] before[i]).id@),
                ) == unicode::lowercase(text::trimmed(r.id@));
            kept_rules(parsed.push(r), mode) == (if usable && !taken {
                before.push(r)
            } else {
                before
            })
        }),
{
    let before = kept_rules(parsed, mode);
    assert(parsed.push(r).drop_last() == parsed);
    if key_taken(before, rule_key(r)) {
        let i = choose|i: int|
            0 <= i < rule_keys(before).len() && rule_keys(before)[i] == rule_key(r);
        assert(rule_key(before[i]) == rule_key(r));
    } else {
        assert forall|i: int| 0 <= i < before.len() implies unicode::lowercase(
            text::trimmed((#[trigger] before[i]).id@),
        ) != unicode::lowercase(text::trimmed(r.id@)) by {
            assert(rule_keys(before)[i] == rule_key(before[i]));
        }
    }
}

/// A rule that is enabled and valid and no container restart is kept in every mode, unless another
/// such rule with the same id stands before it; a container restart is kept like any other in every
/// mode but `free`.
pub proof fn law_usable_rules_are_kept(parsed: Seq<Rule>, mode: Seq<char>, i: int)
    requires
        0 <= i < parsed.len(),
        parsed[i].enabled,
        rule::fault(parsed[i]) is None,
        !(parsed[i].remediation is ContainerRestart) || mode != "free"@,
        forall|j: int|
            0 <= j < i && (#[trigger] parsed[j]).enabled && rule::fault(parsed[j]) is None && !(
            parsed[j].remediation is ContainerRestart && mode == "free"@) ==> unicode::lowercase(
                text::trimmed(parsed[j].id@),
            ) != unicode::lowercase(text::trimmed(parsed[i].id@)),
    ensures
        kept_rules(parsed, mode).contains(parsed[i]),
{
    assert forall|j: int| 0 <= j < i && admissible(#[trigger] parsed[j], mode) implies rule_key(
        parsed[j],
    ) != rule_key(parsed[i]) by {}
    law_first_rule_of_a_key_is_kept(parsed, mode, i);
}

/// In the mode `free` no container restart is kept, and in no mode a rule that is not enabled or
/// not valid.
pub proof fn law_unusable_rules_are_not_kept(parsed: Seq<Rule>, mode: Seq<char>, i: int)
    requires
        0 <= i < kept_rules(parsed, mode).len(),
    ensures
        kept_rules(parsed, mode)[i].enabled,
        rule::fault(kept_rules(parsed, mode)[i]) is None,
        mode == "free"@ ==> !(kept_rules(parsed, mode)[i].remediation is ContainerRestart),
        parsed.contains(kept_rules(parsed, mode)[i]),
{
    law_kept_rules_are_admissible_and_distinct(parsed, mode);
    assert(admissible(kept_rules(parsed, mode)[i], mode));
    lemma_kept_come_from_the_file(parsed, mode, i);
}

/// What a further rule in the file does to the errors and to the log. A rule that is passed over
/// because it is not enabled, or is a container restart in the mode `free`, counts for neither; a
/// faulty one counts as an error; one whose id has come before is only logged.
pub proof fn law_faults_are_counted_and_logged(parsed: Seq<Rule>, r: Rule, mode: Seq<char>)
    ensures
        fault_count(Seq::empty(), mode) == 0,
        selection_lines(Seq::empty(), mode) == Seq::<Seq<char>>::empty(),
        ({
            let passed_over = !r.enabled || (r.remediation is ContainerRestart && mode == "free"@);
            let kept = kept_rules(parsed.push(r), mode).len() > kept_rules(parsed, mode).len();
            let (errors, lines) = (
                fault_count(parsed.push(r), mode),
                selection_lines(parsed.push(r), mode),
            );
            &&& passed_over || kept ==> errors == fault_count(parsed, mode) && lines
                == selection_lines(parsed, mode)
            &&& !passed_over && rule::fault(r) is Some ==> errors == fault_count(parsed, mode) + 1
                && lines == selection_lines(parsed, mode).push(
                "[RULES ERROR] "@ + rule::fault(r)->0,
            )
            &&& !passed_over && rule::fault(r) is None && !kept ==> errors == fault_count(
                parsed,
                mode,
            ) && lines == selection_lines(parsed, mode).push(
                "[RULES ERROR] Duplicate rule '"@ + r.id@ + "' ignored"@,
            )
        }),
{
    assert(parsed.push(r).drop_last() == parsed);
    let before = selection_lines(parsed, mode);
    assert(before + Seq::<Seq<char>>::empty() == before);
    assert(before + seq!["[RULES ERROR] "@ + rule::fault(r)->0] == before.push(
        "[RULES ERROR] "@ + rule::fault(r)->0,
    ));
    let line = "[RULES ERROR] Duplicate rule '"@ + r.id@ + "' ignored"@;
    assert(before + seq![line] == before.push(line));
}

/// What is loaded are the rules that are kept of those in the file, by falling priority and then by
/// id; a file that is missing, cannot be read or is malformed gives none, and counts as one error.
pub proof fn law_loading(
    path: &str,
    read: RulesRead,
    mode: &str,
    r: (RuleLoadResult, Vec<String>),
)
    requires
        call_ensures(load_rules, (path, read, mode), r),
    ensures
        read matches RulesRead::Parsed(parsed) ==> {
            &&& order::stable_sort_of(kept_rules(parsed@, mode@), r.0.rules@)
            &&& r.0.rules@.len() == kept_rules(parsed@, mode@).len()
            &&& forall|x: Rule| r.0.rules@.contains(x) <==> kept_rules(parsed@, mode@).contains(x)
            &&& r.0.files_found == 1
            &&& r.0.errors == fault_count(parsed@, mode@)
            &&& text::texts(r.1@) == selection_lines(parsed@, mode@)
        },
        !(read is Parsed) ==> r.0.rules@.len() == 0 && r.0.errors == 1 && r.1@.len() == 1,
        read is Missing ==> r.0.files_found == 0 && r.1@[0]@ == "[RULES ERROR] Missing "@ + path@,
        read matches RulesRead::Unreadable(e) ==> r.0.files_found == 0 && r.1@[0]@
            == "[RULES ERROR] Cannot read "@ + path@ + ": "@ + e@,
        read matches RulesRead::Malformed(e) ==> r.0.files_found == 1 && r.1@[0]@
            == "[RULES ERROR] Invalid JSON: "@ + e@,
{
    order::law_stable_sort_keeps_items(usable_rules(read, mode@), r.0.rules@);
    assert(text::texts(r.1@).len() == r.1@.len());
    if !(read is Parsed) {
        assert(text::texts(r.1@)[0] == r.1@[0]@);
    }
}

/// New rules are taken into use exactly when there was a file of them and no error; else those that
/// were in use stay, and either is logged.
pub proof fn law_reloads(current: Vec<Rule>, loaded: RuleLoadResult, r: (Vec<Rule>, String))
    requires
        call_ensures(accept_reload, (current, loaded), r),
    ensures
        accepted(loaded) == (loaded.errors == 0 && loaded.files_found > 0),
        r.1@ == reload_text(loaded),
        loaded.errors == 0 && loaded.files_found > 0 ==> r.0@ == loaded.rules@ && r.1@
            == "[RULES] Reloaded "@ + text::decimal(loaded.rules@.len()) + " active rules"@,
        loaded.errors > 0 || loaded.files_found == 0 ==> r.0@ == current@ && r.1@
            == "[RULES] Reload rejected; keeping previous valid rule set"@,
{
}

/// A file holds a list of rules exactly when the first character in it that is not white space is
/// an opening bracket.
pub proof fn law_lists_start_with_a_bracket(contents: &str, r: RulesDocument)
    requires
        call_ensures(document_kind, (contents,), r),
    ensures
        r is List <==> text::trimmed(contents@).len() > 0 && text::trimmed(contents@)[0] == '[',
{
}

} // verus!
