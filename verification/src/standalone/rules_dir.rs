//! Which rules are used, of those that stand in the rules directories.

use crate::order;
use crate::order::Ranked;
use crate::standalone::rule;
use crate::standalone::rule::Rule;
use crate::text;
use crate::unicode;
use vstd::hash_set::StringHashSet;
use vstd::prelude::*;
use vstd::string::*;

verus! {

pub const BUILTIN_RULES_DIR: &'static str = "/etc/aegira/rules/builtin";

pub const CUSTOM_RULES_DIR: &'static str = "/etc/aegira/rules/custom";

/// The name of a file in a directory.
#[derive(Debug)]
pub struct FileName {
    pub bytes: Vec<u8>,
}

/// The order of byte strings.
pub open spec fn bytes_precede(a: Seq<u8>, b: Seq<u8>) -> bool
    decreases a.len(),
{
    if b.len() == 0 {
        false
    } else if a.len() == 0 {
        true
    } else if a[0] != b[0] {
        a[0] < b[0]
    } else {
        bytes_precede(a.drop_first(), b.drop_first())
    }
}

proof fn lemma_bytes_irreflexive(a: Seq<u8>)
    ensures
        !bytes_precede(a, a),
    decreases a.len(),
{
    if a.len() > 0 {
        lemma_bytes_irreflexive(a.drop_first());
    }
}

proof fn lemma_bytes_transitive(a: Seq<u8>, b: Seq<u8>, c: Seq<u8>)
    requires
        bytes_precede(a, b),
        bytes_precede(b, c),
    ensures
        bytes_precede(a, c),
    decreases a.len(),
{
    if a.len() > 0 && a[0] == b[0] && b[0] == c[0] {
        lemma_bytes_transitive(a.drop_first(), b.drop_first(), c.drop_first());
    }
}

proof fn lemma_bytes_negatively_transitive(a: Seq<u8>, b: Seq<u8>, c: Seq<u8>)
    requires
        !bytes_precede(a, b),
        !bytes_precede(b, c),
    ensures
        !bytes_precede(a, c),
    decreases a.len(),
{
    if a.len() > 0 && b.len() > 0 && c.len() > 0 && a[0] == b[0] && b[0] == c[0] {
        lemma_bytes_negatively_transitive(a.drop_first(), b.drop_first(), c.drop_first());
    }
}

/// File names are in the order of their bytes.
impl Ranked for FileName {
    open spec fn ranks_before(&self, other: &Self) -> bool {
        bytes_precede(self.bytes@, other.bytes@)
    }

    proof fn rank_irreflexive(a: &Self) {
        lemma_bytes_irreflexive(a.bytes@);
    }

    proof fn rank_negatively_transitive(a: &Self, b: &Self, c: &Self) {
        lemma_bytes_negatively_transitive(a.bytes@, b.bytes@, c.bytes@);
    }

    proof fn rank_transitive(a: &Self, b: &Self, c: &Self) {
        lemma_bytes_transitive(a.bytes@, b.bytes@, c.bytes@);
    }

    fn is_before(&self, other: &Self) -> (r: bool) {
        let mut i: usize = 0;
        let ghost (a, b) = (self.bytes@, other.bytes@);
        assert(a.skip(0) == a);
        assert(b.skip(0) == b);
        while i < self.bytes.len() && i < other.bytes.len() && self.bytes[i] == other.bytes[i]
            invariant
                a == self.bytes@,
                b == other.bytes@,
                i <= a.len(),
                i <= b.len(),
                bytes_precede(a, b) == bytes_precede(a.skip(i as int), b.skip(i as int)),
            decreases a.len() - i,
        {
            assert(a.skip(i as int).drop_first() == a.skip(i + 1));
            assert(b.skip(i as int).drop_first() == b.skip(i + 1));
            i = i + 1;
        }
        if i == other.bytes.len() {
            false
        } else if i == self.bytes.len() {
            true
        } else {
            self.bytes[i] < other.bytes[i]
        }
    }
}

/// The bytes of `.json`.
pub open spec fn json_suffix() -> Seq<u8> {
    seq![46u8, 106u8, 115u8, 111u8, 110u8]
}

/// Whether a file is one of rules: its name is something followed by `.json`.
pub open spec fn rules_file_name(name: Seq<u8>) -> bool {
    name.len() > 5 && name.skip(name.len() - 5) == json_suffix()
}

/// Tells whether a file is one of rules.
pub fn is_rules_file_name(name: &Vec<u8>) -> (r: bool)
    ensures
        r == rules_file_name(name@),
{
    let n: usize = name.len();
    if n <= 5 {
        return false;
    }
    let r = name[n - 5] == 46 && name[n - 4] == 106 && name[n - 3] == 115 && name[n - 2] == 111
        && name[n - 1] == 110;
    proof {
        let tail = name@.skip(n - 5);
        assert(tail[0] == name@[n - 5] && tail[1] == name@[n - 4] && tail[2] == name@[n - 3]
            && tail[3] == name@[n - 2] && tail[4] == name@[n - 1]);
        let s = json_suffix();
        assert(s[0] == 46 && s[1] == 106 && s[2] == 115 && s[3] == 111 && s[4] == 110);
        if r {
            assert(tail == s);
        }
    }
    r
}

/// Those of the files in a directory that hold rules.
pub open spec fn rules_files_among(names: Seq<FileName>) -> Seq<FileName> {
    names.filter(|n: FileName| rules_file_name(n.bytes@))
}

/// Those of the files in a directory that hold rules, in the order in which they are read.
pub fn rules_files(names: Vec<FileName>) -> (r: Vec<FileName>)
    ensures
        order::stable_sort_of(rules_files_among(names@), r@),
{
    let ghost all = names@;
    let mut rest = names;
    let mut kept: Vec<FileName> = Vec::new();
    let ghost mut n: int = 0;
    assert(all.skip(0) == all);
    proof {
        reveal(Seq::filter);
    }
    while rest.len() > 0
        invariant
            0 <= n <= all.len(),
            rest@ == all.skip(n),
            kept@ == rules_files_among(all.take(n)),
        decreases rest.len(),
    {
        let name = rest.remove(0);
        proof {
            reveal(Seq::filter);
            assert(all.take(n + 1).drop_last() == all.take(n));
            assert(rest@ == all.skip(n + 1));
            n = n + 1;
        }
        if is_rules_file_name(&name.bytes) {
            kept.push(name);
        }
    }
    assert(all.take(all.len() as int) == all);
    order::stable_sort(kept)
}

/// What a file of rules holds, by its text.
#[derive(Clone, Copy, Debug)]
pub enum RulesDocument {
    /// Nothing.
    Empty,
    /// A list of rules.
    List,
    /// A single rule.
    Single,
}

/// Tells what a file of rules holds.
pub fn document_kind(contents: &str) -> (r: RulesDocument)
    ensures
        r is Empty <==> text::blank(contents@),
        r is List <==> !text::blank(contents@) && text::trimmed(contents@)[0] == '[',
{
    let chars = text::chars_of(text::trim(contents));
    if chars.len() == 0 {
        RulesDocument::Empty
    } else if chars[0] == '[' {
        RulesDocument::List
    } else {
        RulesDocument::Single
    }
}

/// What came of reading a file of rules.
pub enum FileRead {
    /// It could not be read, for this reason.
    Unreadable(String),
    /// It does not hold rules, for this reason.
    Malformed(String),
    /// It holds these rules.
    Parsed(Vec<Rule>),
}

/// A file of rules and what came of reading it.
pub struct RulesFile {
    pub path: String,
    pub read: FileRead,
}

/// What came of reading a directory of rules.
pub enum DirectoryRead {
    /// There is no such directory.
    Missing,
    /// It could not be read, for this reason.
    Unreadable(String),
    /// It holds these files of rules.
    Files(Vec<RulesFile>),
}

/// Those of the rules that are valid.
pub open spec fn valid_rules(rules: Seq<Rule>) -> Seq<Rule> {
    rules.filter(|r: Rule| rule::fault(r) is None)
}

/// What is logged about a rule.
pub open spec fn rule_text(r: Rule) -> Seq<char> {
    match rule::fault(r) {
        None => "[RULES] Loaded: "@ + r.id@,
        Some(e) => "[RULES ERROR] "@ + e,
    }
}

/// What is logged about rules.
pub open spec fn rule_texts(rules: Seq<Rule>) -> Seq<Seq<char>> {
    rules.map_values(|r: Rule| rule_text(r))
}

/// The valid rules of a file.
pub open spec fn file_rules(f: RulesFile) -> Seq<Rule> {
    match f.read {
        FileRead::Parsed(rules) => valid_rules(rules@),
        _ => Seq::empty(),
    }
}

/// What is logged about a file.
pub open spec fn file_texts(f: RulesFile) -> Seq<Seq<char>> {
    match f.read {
        FileRead::Unreadable(e) => seq![
            "[RULES ERROR] Failed reading "@ + f.path@ + ": "@ + e@,
        ],
        FileRead::Malformed(e) => seq!["[RULES ERROR] Invalid JSON "@ + f.path@ + ": "@ + e@],
        FileRead::Parsed(rules) => rule_texts(rules@),
    }
}

/// The valid rules of files, one after the other.
pub open spec fn files_rules(files: Seq<RulesFile>) -> Seq<Rule>
    decreases files.len(),
{
    if files.len() == 0 {
        Seq::empty()
    } else {
        files_rules(files.drop_last()) + file_rules(files.last())
    }
}

/// What is logged about files, one after the other.
pub open spec fn files_texts(files: Seq<RulesFile>) -> Seq<Seq<char>>
    decreases files.len(),
{
    if files.len() == 0 {
        Seq::empty()
    } else {
        files_texts(files.drop_last()) + file_texts(files.last())
    }
}

/// The valid rules of a directory.
pub open spec fn directory_rules(read: DirectoryRead) -> Seq<Rule> {
    match read {
        DirectoryRead::Files(files) => files_rules(files@),
        _ => Seq::empty(),
    }
}

/// What is logged about a directory. One that is missing is passed over in silence.
pub open spec fn directory_texts(path: Seq<char>, read: DirectoryRead) -> Seq<Seq<char>> {
    match read {
        DirectoryRead::Missing => Seq::empty(),
        DirectoryRead::Unreadable(e) => seq![
            "[RULES ERROR] Failed to read "@ + path + ": "@ + e@,
        ],
        DirectoryRead::Files(files) => files_texts(files@),
    }
}

/// Picks out the valid rules of a file, and says what is to be logged about them.
fn check_rules(parsed: Vec<Rule>) -> (r: (Vec<Rule>, Vec<String>))
    ensures
        r.0@ == valid_rules(parsed@),
        text::texts(r.1@) == rule_texts(parsed@),
{
    broadcast use text::lemma_texts_push;

    let ghost all = parsed@;
    let mut rest = parsed;
    let mut kept: Vec<Rule> = Vec::new();
    let mut lines: Vec<String> = Vec::new();
    let ghost mut n: int = 0;
    proof {
        reveal(Seq::filter);
        assert(all.skip(0) == all);
        assert(text::texts(lines@) == rule_texts(all.take(0)));
    }
    while rest.len() > 0
        invariant
            0 <= n <= all.len(),
            rest@ == all.skip(n),
            kept@ == valid_rules(all.take(n)),
            text::texts(lines@) == rule_texts(all.take(n)),
        decreases rest.len(),
    {
        let r = rest.remove(0);
        proof {
            reveal(Seq::filter);
            assert(all.take(n + 1).drop_last() == all.take(n));
            assert(rule_texts(all.take(n + 1)) == rule_texts(all.take(n)).push(rule_text(all[n])));
            assert(rest@ == all.skip(n + 1));
            n = n + 1;
        }
        match rule::validate_rule(&r) {
            Ok(_) => {
                lines.push("[RULES] Loaded: ".to_owned().concat(r.id.as_str()));
                kept.push(r);
            },
            Err(e) => {
                lines.push("[RULES ERROR] ".to_owned().concat(e.as_str()));
            },
        }
    }
    assert(all.take(all.len() as int) == all);
    (kept, lines)
}

/// The valid rules of a directory, and what is to be logged.
pub fn load_rules_from_directory(path: &str, read: DirectoryRead) -> (r: (Vec<Rule>, Vec<String>))
    ensures
        r.0@ == directory_rules(read),
        text::texts(r.1@) == directory_texts(path@, read),
{
    broadcast use {text::lemma_texts_push, text::lemma_texts_add};

    let mut rules: Vec<Rule> = Vec::new();
    let mut lines: Vec<String> = Vec::new();
    assert(text::texts(lines@) == Seq::<Seq<char>>::empty());
    let mut rest = match read {
        DirectoryRead::Missing => {
            return (rules, lines);
        },
        DirectoryRead::Unreadable(e) => {
            lines.push(
                "[RULES ERROR] Failed to read ".to_owned().concat(path).concat(": ").concat(
                    e.as_str(),
                ),
            );
            assert(text::texts(lines@) == directory_texts(path@, read));
            return (rules, lines);
        },
        DirectoryRead::Files(files) => files,
    };
    let ghost all = rest@;
    let ghost mut n: int = 0;
    assert(all.skip(0) == all);
    while rest.len() > 0
        invariant
            0 <= n <= all.len(),
            rest@ == all.skip(n),
            rules@ == files_rules(all.take(n)),
            text::texts(lines@) == files_texts(all.take(n)),
        decreases rest.len(),
    {
        let file = rest.remove(0);
        let ghost f = file;
        proof {
            assert(f == all[n]);
            assert(all.take(n + 1).drop_last() == all.take(n));
            assert(rest@ == all.skip(n + 1));
            n = n + 1;
        }
        let ghost before = text::texts(lines@);
        match file.read {
            FileRead::Unreadable(e) => {
                lines.push(
                    "[RULES ERROR] Failed reading ".to_owned().concat(file.path.as_str()).concat(
                        ": ",
                    ).concat(e.as_str()),
                );
                assert(text::texts(lines@) == before + file_texts(f));
            },
            FileRead::Malformed(e) => {
                lines.push(
                    "[RULES ERROR] Invalid JSON ".to_owned().concat(file.path.as_str()).concat(
                        ": ",
                    ).concat(e.as_str()),
                );
                assert(text::texts(lines@) == before + file_texts(f));
            },
            FileRead::Parsed(parsed) => {
                let (mut kept, mut said) = check_rules(parsed);
                rules.append(&mut kept);
                lines.append(&mut said);
            },
        }
    }
    assert(all.take(all.len() as int) == all);
    (rules, lines)
}

/// What tells rules apart.
pub open spec fn rule_key(r: Rule) -> Seq<char> {
    unicode::lowercase(text::trimmed(r.id@))
}

/// The keys of the rules.
pub open spec fn rule_keys(rules: Seq<Rule>) -> Seq<Seq<char>> {
    rules.map_values(|r: Rule| rule_key(r))
}

/// Whether one of the rules has this key.
pub open spec fn key_taken(rules: Seq<Rule>, key: Seq<char>) -> bool {
    rule_keys(rules).contains(key)
}

/// The first of each key among the rules.
pub open spec fn firsts(rules: Seq<Rule>) -> Seq<Rule>
    decreases rules.len(),
{
    if rules.len() == 0 {
        Seq::empty()
    } else {
        let before = firsts(rules.drop_last());
        if key_taken(before, rule_key(rules.last())) {
            before
        } else {
            before.push(rules.last())
        }
    }
}

/// What is logged about those of the rules in `more` that are passed over because their key has
/// come before, be it in `rules` or in `more`.
pub open spec fn duplicate_texts(rules: Seq<Rule>, more: Seq<Rule>) -> Seq<Seq<char>>
    decreases more.len(),
{
    if more.len() == 0 {
        Seq::empty()
    } else {
        let before = duplicate_texts(rules, more.drop_last());
        if key_taken(firsts(rules + more.drop_last()), rule_key(more.last())) {
            before.push("[RULES] Duplicate rule ignored: "@ + more.last().id@)
        } else {
            before
        }
    }
}

/// Adds the first of each new key among the rules in `more`, and returns the lines about the
/// others. The rules so far are those of `given`.
fn merge(kept: &mut Vec<Rule>, seen: &mut StringHashSet, more: Vec<Rule>, given: Ghost<Seq<Rule>>)
    -> (r: Vec<String>)
    requires
        old(kept)@ == firsts(given@),
        old(seen)@ == rule_keys(old(kept)@).to_set(),
    ensures
        final(kept)@ == firsts(given@ + more@),
        final(seen)@ == rule_keys(final(kept)@).to_set(),
        text::texts(r@) == duplicate_texts(given@, more@),
{
    broadcast use text::lemma_texts_push;

    let ghost all = more@;
    let mut rest = more;
    let mut lines: Vec<String> = Vec::new();
    let ghost mut n: int = 0;
    proof {
        assert(all.skip(0) == all);
        assert(given@ + all.take(0) == given@);
        assert(text::texts(lines@) == duplicate_texts(given@, all.take(0)));
    }
    while rest.len() > 0
        invariant
            0 <= n <= all.len(),
            rest@ == all.skip(n),
            kept@ == firsts(given@ + all.take(n)),
            seen@ == rule_keys(kept@).to_set(),
            text::texts(lines@) == duplicate_texts(given@, all.take(n)),
        decreases rest.len(),
    {
        let r = rest.remove(0);
        let ghost before = kept@;
        proof {
            assert(all.take(n + 1).drop_last() == all.take(n));
            assert((given@ + all.take(n + 1)).drop_last() == given@ + all.take(n));
            assert((given@ + all.take(n + 1)).last() == r);
            assert(rest@ == all.skip(n + 1));
            n = n + 1;
        }
        let key = text::trim(r.id.as_str()).to_lowercase();
        let ghost seen_before = seen@;
        if seen.insert(key) {
            kept.push(r);
            assert(rule_keys(kept@) == rule_keys(before).push(rule_key(r)));
            proof {
                rule_keys(before).lemma_push_to_set_commute(rule_key(r));
            }
        } else {
            assert(seen@ == seen_before);
            lines.push("[RULES] Duplicate rule ignored: ".to_owned().concat(r.id.as_str()));
        }
    }
    assert(all.take(all.len() as int) == all);
    lines
}

/// The rules to choose from: of those of both directories the first of each key, the built-in
/// ones coming first.
pub open spec fn external_rules(builtin: DirectoryRead, custom: DirectoryRead) -> Seq<Rule> {
    firsts(directory_rules(builtin) + directory_rules(custom))
}

/// What is logged when the rules are loaded.
pub open spec fn load_texts(builtin: DirectoryRead, custom: DirectoryRead) -> Seq<Seq<char>> {
    let rules = external_rules(builtin, custom);
    directory_texts(BUILTIN_RULES_DIR@, builtin) + directory_texts(CUSTOM_RULES_DIR@, custom)
        + duplicate_texts(directory_rules(builtin), directory_rules(custom)) + (if rules.len()
        == 0 {
        seq![
            "[RULES] No external rules loaded. Using fallback rule."@,
            "[RULES] Total active rules: "@ + text::decimal(1),
        ]
    } else {
        seq!["[RULES] Total active rules: "@ + text::decimal(rules.len())]
    })
}

/// Whether `active` are the rules to use, in order: those of the directories by priority, or the
/// fallback rule where there are none.
pub open spec fn active_rules(
    builtin: DirectoryRead,
    custom: DirectoryRead,
    active: Seq<Rule>,
) -> bool {
    let rules = external_rules(builtin, custom);
    if rules.len() == 0 {
        rule::default_rules(active)
    } else {
        order::stable_sort_of(rules, active)
    }
}

/// The rules to use, and what is to be logged.
pub fn load_all_rules(builtin: DirectoryRead, custom: DirectoryRead) -> (r: (
    Vec<Rule>,
    Vec<String>,
))
    ensures
        active_rules(builtin, custom, r.0@),
        text::texts(r.1@) == load_texts(builtin, custom),
{
    broadcast use {text::lemma_texts_push, text::lemma_texts_add};

    let mut rules: Vec<Rule> = Vec::new();
    let mut seen = StringHashSet::new();
    let (builtin_rules, mut lines) = load_rules_from_directory(BUILTIN_RULES_DIR, builtin);
    let ghost first = builtin_rules@;
    assert(Seq::<Rule>::empty() + first == first);
    assert(seen@ == rule_keys(rules@).to_set());
    let _unsaid = merge(&mut rules, &mut seen, builtin_rules, Ghost(Seq::empty()));
    let (custom_rules, mut said) = load_rules_from_directory(CUSTOM_RULES_DIR, custom);
    lines.append(&mut said);
    let mut duplicates = merge(&mut rules, &mut seen, custom_rules, Ghost(first));
    lines.append(&mut duplicates);
    let ghost before = text::texts(lines@);
    if rules.len() == 0 {
        lines.push("[RULES] No external rules loaded. Using fallback rule.".to_owned());
        let fallback = rule::get_hardcoded_default_rules();
        let total = text::decimal_text(fallback.len() as u64);
        lines.push("[RULES] Total active rules: ".to_owned().concat(total.as_str()));
        assert(text::texts(lines@) == load_texts(builtin, custom));
        (fallback, lines)
    } else {
        let total = text::decimal_text(rules.len() as u64);
        lines.push("[RULES] Total active rules: ".to_owned().concat(total.as_str()));
        assert(text::texts(lines@) == load_texts(builtin, custom));
        (order::stable_sort(rules), lines)
    }
}

proof fn lemma_firsts(rules: Seq<Rule>)
    ensures
        forall|i: int| 0 <= i < firsts(rules).len() ==> rules.contains(#[trigger] firsts(rules)[i]),
        forall|i: int, j: int|
            0 <= i < j < firsts(rules).len() ==> rule_key(#[trigger] firsts(rules)[i]) != rule_key(
                #[trigger] firsts(rules)[j],
            ),
        forall|i: int|
            0 <= i < rules.len() ==> key_taken(firsts(rules), rule_key(#[trigger] rules[i])),
    decreases rules.len(),
{
    if rules.len() > 0 {
        let rest = rules.drop_last();
        lemma_firsts(rest);
        let before = firsts(rest);
        let all = firsts(rules);
        assert forall|i: int| 0 <= i < all.len() implies rules.contains(#[trigger] all[i]) by {
            if i < before.len() {
                assert(all[i] == before[i]);
                let k = choose|k: int| 0 <= k < rest.len() && rest[k] == before[i];
                assert(rules[k] == all[i]);
            } else {
                assert(rules[rules.len() - 1] == all[i]);
            }
        }
        assert forall|i: int, j: int| 0 <= i < j < all.len() implies rule_key(#[trigger] all[i])
            != rule_key(#[trigger] all[j]) by {
            assert(all[i] == before[i]);
            if j < before.len() {
                assert(all[j] == before[j]);
            } else {
                assert(rule_keys(before)[i] == rule_key(before[i]));
            }
        }
        assert forall|i: int| 0 <= i < rules.len() implies key_taken(
            all,
            rule_key(#[trigger] rules[i]),
        ) by {
            if i < rest.len() {
                assert(rest[i] == rules[i]);
                let k = choose|k: int|
                    0 <= k < rule_keys(before).len() && rule_keys(before)[k] == rule_key(rest[i]);
                assert(all[k] == before[k]);
                assert(rule_keys(all)[k] == rule_key(rules[i]));
            } else if all.len() > before.len() {
                assert(rule_keys(all)[before.len() as int] == rule_key(rules[i]));
            }
        }
    }
}

proof fn lemma_files_rules_valid(files: Seq<RulesFile>)
    ensures
        forall|i: int|
            0 <= i < files_rules(files).len() ==> rule::fault(#[trigger] files_rules(files)[i])
                is None,
    decreases files.len(),
{
    if files.len() > 0 {
        lemma_files_rules_valid(files.drop_last());
        match files.last().read {
            FileRead::Parsed(rules) => {
                let f = |r: Rule| rule::fault(r) is None;
                assert forall|i: int| 0 <= i < valid_rules(rules@).len() implies rule::fault(
                    #[trigger] valid_rules(rules@)[i],
                ) is None by {
                    rules@.lemma_filter_pred(f, i);
                }
            },
            _ => {},
        }
    }
}

/// There is always a rule in use, every rule in use is valid, no two of them have the same key, and
/// they stand in the order of their priority.
pub proof fn law_active_rules_are_valid(
    builtin: DirectoryRead,
    custom: DirectoryRead,
    active: Seq<Rule>,
)
    requires
        active_rules(builtin, custom, active),
    ensures
        active.len() > 0,
        forall|i: int| 0 <= i < active.len() ==> rule::fault(#[trigger] active[i]) is None,
        forall|i: int, j: int|
            0 <= i < j < active.len() ==> rule_key(#[trigger] active[i]) != rule_key(
                #[trigger] active[j],
            ),
        forall|i: int, j: int|
            0 <= i < j < active.len() ==> (#[trigger] active[i]).priority >= (
            #[trigger] active[j]).priority,
{
    let given = directory_rules(builtin) + directory_rules(custom);
    let rules = external_rules(builtin, custom);
    if rules.len() == 0 {
        rule::law_default_rule_is_valid(active);
    } else {
        order::law_stable_sort_keeps_items(rules, active);
        lemma_firsts(given);
        if let DirectoryRead::Files(files) = builtin {
            lemma_files_rules_valid(files@);
        }
        if let DirectoryRead::Files(files) = custom {
            lemma_files_rules_valid(files@);
        }
        assert forall|i: int| 0 <= i < active.len() implies rule::fault(
            #[trigger] active[i],
        ) is None by {
            assert(active.contains(active[i]));
            assert(rules.contains(active[i]));
            let k = choose|k: int| 0 <= k < rules.len() && rules[k] == active[i];
            assert(given.contains(rules[k]));
        }
        let key = |r: Rule| rule_key(r);
        order::law_stable_sort_keeps_keys_apart(rules, active, key);
        assert forall|i: int, j: int| 0 <= i < j < active.len() implies rule_key(
            #[trigger] active[i],
        ) != rule_key(#[trigger] active[j]) by {
            assert(key(active[i]) != key(active[j]));
        }
        order::law_stable_sort_is_in_order(rules, active);
        assert forall|i: int, j: int| 0 <= i < j < active.len() implies (
        #[trigger] active[i]).priority >= (#[trigger] active[j]).priority by {
            assert(!active[j].ranks_before(&active[i]));
        }
    }
}

/// Of the valid rules with one key the first is used; a rule in the directory of built-in rules
/// comes before any in the directory of custom ones.
pub proof fn law_first_rule_of_a_key_is_used(
    builtin: DirectoryRead,
    custom: DirectoryRead,
    active: Seq<Rule>,
    i: int,
)
    requires
        active_rules(builtin, custom, active),
        0 <= i < (directory_rules(builtin) + directory_rules(custom)).len(),
        !key_taken(
            (directory_rules(builtin) + directory_rules(custom)).take(i),
            rule_key((directory_rules(builtin) + directory_rules(custom))[i]),
        ),
    ensures
        active.contains((directory_rules(builtin) + directory_rules(custom))[i]),
{
    let given = directory_rules(builtin) + directory_rules(custom);
    lemma_first_is_kept(given, i);
    assert(external_rules(builtin, custom).contains(given[i]));
    order::law_stable_sort_keeps_items(external_rules(builtin, custom), active);
}

proof fn lemma_first_is_kept(rules: Seq<Rule>, i: int)
    requires
        0 <= i < rules.len(),
        !key_taken(rules.take(i), rule_key(rules[i])),
    ensures
        firsts(rules).contains(rules[i]),
    decreases rules.len(),
{
    let rest = rules.drop_last();
    let before = firsts(rest);
    let all = firsts(rules);
    lemma_firsts(rest);
    if i == rest.len() {
        assert(rest == rules.take(i));
        if key_taken(before, rule_key(rules[i])) {
            let k = choose|k: int|
                0 <= k < rule_keys(before).len() && rule_keys(before)[k] == rule_key(rules[i]);
            assert(rest.contains(before[k]));
            let j = choose|j: int| 0 <= j < rest.len() && rest[j] == before[k];
            assert(rule_keys(rules.take(i))[j] == rule_key(rules[i]));
        }
        assert(all[before.len() as int] == rules[i]);
    } else {
        assert(rest.take(i) == rules.take(i));
        lemma_first_is_kept(rest, i);
        let k = choose|k: int| 0 <= k < before.len() && before[k] == rest[i];
        assert(all[k] == rules[i]);
    }
}

/// Byte strings are in the order of the bytes in which they differ first, and one stands before its
/// continuations.
pub proof fn law_first_difference_orders_names(common: Seq<u8>, a: Seq<u8>, b: Seq<u8>)
    ensures
        bytes_precede(common + a, common + b) == bytes_precede(a, b),
        a.len() == 0 ==> bytes_precede(a, b) == (b.len() > 0),
        b.len() == 0 ==> !bytes_precede(a, b),
        a.len() > 0 && b.len() > 0 && a[0] != b[0] ==> bytes_precede(a, b) == (a[0] < b[0]),
    decreases common.len(),
{
    if common.len() > 0 {
        let rest = common.drop_first();
        assert((common + a).drop_first() == rest + a);
        assert((common + b).drop_first() == rest + b);
        law_first_difference_orders_names(rest, a, b);
    } else {
        assert(common + a == a);
        assert(common + b == b);
    }
}

/// Files of rules are those with a name that goes on with `.json` to its end, and has something in
/// front of that.
pub proof fn law_names_of_rules_files(name: &Vec<u8>, r: bool)
    requires
        call_ensures(is_rules_file_name, (name,), r),
    ensures
        r == rules_file_name(name@),
        r == ({
            let n = name@.len();
            n > 5 && name@[n - 5] == '.' as u8 && name@[n - 4] == 'j' as u8 && name@[n - 3]
                == 's' as u8 && name@[n - 2] == 'o' as u8 && name@[n - 1] == 'n' as u8
        }),
{
    if name@.len() > 5 {
        let n = name@.len();
        let tail = name@.skip(n - 5);
        assert(tail[0] == name@[n - 5] && tail[1] == name@[n - 4] && tail[2] == name@[n - 3]
            && tail[3] == name@[n - 2] && tail[4] == name@[n - 1]);
        let s = json_suffix();
        assert(s[0] == 46 && s[1] == 106 && s[2] == 115 && s[3] == 111 && s[4] == 110);
        if tail[0] == 46 && tail[1] == 106 && tail[2] == 115 && tail[3] == 111 && tail[4] == 110 {
            assert(tail == s);
        }
    }
}

/// Of the files in a directory exactly those of rules are read, in the order of their names.
pub proof fn law_files_are_read_in_order(names: Vec<FileName>, r: Vec<FileName>)
    requires
        call_ensures(rules_files, (names,), r),
    ensures
        forall|x: FileName| r@.contains(x) <==> names@.contains(x) && rules_file_name(x.bytes@),
        forall|i: int, j: int|
            0 <= i < j < r@.len() ==> !bytes_precede(
                (#[trigger] r@[j]).bytes@,
                (#[trigger] r@[i]).bytes@,
            ),
{
    let among = rules_files_among(names@);
    let p = |n: FileName| rules_file_name(n.bytes@);
    order::law_stable_sort_keeps_items(among, r@);
    order::law_stable_sort_is_in_order(among, r@);
    assert forall|x: FileName| among.contains(x) <==> names@.contains(x) && rules_file_name(
        x.bytes@,
    ) by {
        if among.contains(x) {
            let i = choose|i: int| 0 <= i < among.len() && among[i] == x;
            names@.lemma_filter_pred(p, i);
            names@.lemma_filter_contains_rev(p, x);
        }
        if names@.contains(x) && rules_file_name(x.bytes@) {
            let i = choose|i: int| 0 <= i < names@.len() && names@[i] == x;
            names@.lemma_filter_contains(p, i);
        }
    }
    assert forall|i: int, j: int| 0 <= i < j < r@.len() implies !bytes_precede(
        (#[trigger] r@[j]).bytes@,
        (#[trigger] r@[i]).bytes@,
    ) by {
        assert(!r@[j].ranks_before(&r@[i]));
    }
}

/// A file with nothing but white space in it holds no rules; any other holds a list exactly when the
/// first character in it that is not white space is an opening bracket.
pub proof fn law_lists_start_with_a_bracket(contents: &str, r: RulesDocument)
    requires
        call_ensures(document_kind, (contents,), r),
    ensures
        r is Empty <==> text::trimmed(contents@).len() == 0,
        r is List <==> text::trimmed(contents@).len() > 0 && text::trimmed(contents@)[0] == '[',
{
}

/// What a further rule in a file does to the rules of that file and to the log: it is among them
/// exactly when it is valid, and is logged either way.
pub proof fn law_rules_of_a_file(rules: Seq<Rule>, r: Rule)
    ensures
        valid_rules(Seq::empty()) == Seq::<Rule>::empty(),
        rule_texts(Seq::empty()) == Seq::<Seq<char>>::empty(),
        rule::fault(r) is None ==> valid_rules(rules.push(r)) == valid_rules(rules).push(r)
            && rule_texts(rules.push(r)) == rule_texts(rules).push("[RULES] Loaded: "@ + r.id@),
        rule::fault(r) matches Some(e) ==> valid_rules(rules.push(r)) == valid_rules(rules)
            && rule_texts(rules.push(r)) == rule_texts(rules).push("[RULES ERROR] "@ + e),
{
    reveal(Seq::filter);
    assert(rules.push(r).drop_last() == rules);
    assert(rule_texts(rules.push(r)) == rule_texts(rules).push(rule_text(r)));
    assert(rule_texts(Seq::empty()) == Seq::<Seq<char>>::empty());
}

/// What a further file does to the rules of a directory and to the log: its valid rules come behind
/// those of the files before it; a file that cannot be read or is malformed gives none, and is
/// logged.
pub proof fn law_rules_of_a_directory(files: Seq<RulesFile>, f: RulesFile)
    ensures
        files_rules(Seq::empty()) == Seq::<Rule>::empty(),
        files_texts(Seq::empty()) == Seq::<Seq<char>>::empty(),
        f.read matches FileRead::Parsed(rules) ==> files_rules(files.push(f)) == files_rules(files)
            + valid_rules(rules@) && files_texts(files.push(f)) == files_texts(files) + rule_texts(
            rules@,
        ),
        f.read matches FileRead::Unreadable(e) ==> files_rules(files.push(f)) == files_rules(files)
            && files_texts(files.push(f)) == files_texts(files).push(
            "[RULES ERROR] Failed reading "@ + f.path@ + ": "@ + e@,
        ),
        f.read matches FileRead::Malformed(e) ==> files_rules(files.push(f)) == files_rules(files)
            && files_texts(files.push(f)) == files_texts(files).push(
            "[RULES ERROR] Invalid JSON "@ + f.path@ + ": "@ + e@,
        ),
{
    assert(files.push(f).drop_last() == files);
    assert(files_rules(files) + Seq::<Rule>::empty() == files_rules(files));
    let texts = files_texts(files);
    assert(files_texts(files.push(f)) == texts + file_texts(f));
    if let FileRead::Unreadable(e) = f.read {
        let line = "[RULES ERROR] Failed reading "@ + f.path@ + ": "@ + e@;
        assert(texts + seq![line] == texts.push(line));
    }
    if let FileRead::Malformed(e) = f.read {
        let line = "[RULES ERROR] Invalid JSON "@ + f.path@ + ": "@ + e@;
        assert(texts + seq![line] == texts.push(line));
    }
}

/// What a directory gives are the rules of its files; one that is missing or cannot be read gives
/// none, the latter with a line in the log.
pub proof fn law_directories(path: &str, read: DirectoryRead, r: (Vec<Rule>, Vec<String>))
    requires
        call_ensures(load_rules_from_directory, (path, read), r),
    ensures
        r.0@ == directory_rules(read),
        read matches DirectoryRead::Files(files) ==> r.0@ == files_rules(files@) && text::texts(r.1@)
            == files_texts(files@),
        read is Missing ==> r.0@.len() == 0 && r.1@.len() == 0,
        read matches DirectoryRead::Unreadable(e) ==> r.0@.len() == 0 && r.1@.len() == 1 && r.1@[0]@
            == "[RULES ERROR] Failed to read "@ + path@ + ": "@ + e@,
{
    assert(text::texts(r.1@).len() == r.1@.len());
    if read is Unreadable {
        assert(text::texts(r.1@)[0] == r.1@[0]@);
    }
}

/// What a further rule does to the rules to choose from: it is among them exactly when its id
/// differs from those before it, white space round it and letter case aside.
pub proof fn law_first_of_each_id(rules: Seq<Rule>, r: Rule)
    ensures
        firsts(Seq::empty()) == Seq::<Rule>::empty(),
        ({
            let taken = exists|i: int|
                0 <= i < firsts(rules).len() && unicode::lowercase(
                    text::trimmed((#[trigger] firsts(rules)[i]).id@),
                ) == unicode::lowercase(text::trimmed(r.id@));
            firsts(rules.push(r)) == (if taken {
                firsts(rules)
            } else {
                firsts(rules).push(r)
            })
        }),
{
    let before = firsts(rules);
    assert(rules.push(r).drop_last() == rules);
    if key_taken(before, rule_key(r)) {
        let i = choose|i: int|
            0 <= i < rule_keys(before).len() && rule_keys(before)[i] == rule_key(r);
        assert(rule_key(before[i]) == rule_key(r));
    } else {
        assert forall|i: int| 0 <= i < before.len() implies unicode::lowercase(
            text::trimmed((#[trigger] before[i]).id@),
        ) != unicode::lowercase(text::trimmed(r.id@)) by {
            assert(rule_keys(before)[i] == rule_key(before[i]));
        }
    }
}

/// The rules in use are, of those of the directory of built-in rules and then of that of custom
/// ones, the first of each id, by falling priority; where there are none, the fallback rule alone.
pub proof fn law_rules_in_use(
    builtin: DirectoryRead,
    custom: DirectoryRead,
    r: (Vec<Rule>, Vec<String>),
)
    requires
        call_ensures(load_all_rules, (builtin, custom), r),
    ensures
        ({
            let external = firsts(directory_rules(builtin) + directory_rules(custom));
            &&& active_rules(builtin, custom, r.0@)
            &&& external.len() > 0 ==> order::stable_sort_of(external, r.0@)
            &&& external.len() > 0 ==> forall|x: Rule| #[trigger]
                r.0@.contains(x) <==> external.contains(x)
            &&& external.len() == 0 ==> r.0@.len() == 1 && r.0@[0].id@ == "connection_refused"@
            &&& external.len() == 0 ==> rule::default_rules(r.0@)
            &&& text::texts(r.1@) == directory_texts("/etc/aegira/rules/builtin"@, builtin)
                + directory_texts("/etc/aegira/rules/custom"@, custom) + duplicate_texts(
                directory_rules(builtin),
                directory_rules(custom),
            ) + (if external.len() == 0 {
                seq![
                    "[RULES] No external rules loaded. Using fallback rule."@,
                    "[RULES] Total active rules: "@ + text::decimal(1),
                ]
            } else {
                seq!["[RULES] Total active rules: "@ + text::decimal(external.len())]
            })
        }),
{
    let external = external_rules(builtin, custom);
    if external.len() > 0 {
        order::law_stable_sort_keeps_items(external, r.0@);
    }
}

/// What is logged about a further custom rule: that it is passed over, exactly when one with its id
/// has come before.
pub proof fn law_duplicates_are_logged(rules: Seq<Rule>, more: Seq<Rule>, r: Rule)
    ensures
        duplicate_texts(rules, Seq::empty()) == Seq::<Seq<char>>::empty(),
        firsts(rules + more.push(r)).len() == firsts(rules + more).len() ==> duplicate_texts(
            rules,
            more.push(r),
        ) == duplicate_texts(rules, more).push("[RULES] Duplicate rule ignored: "@ + r.id@),
        firsts(rules + more.push(r)).len() != firsts(rules + more).len() ==> duplicate_texts(
            rules,
            more.push(r),
        ) == duplicate_texts(rules, more),
{
    assert(more.push(r).drop_last() == more);
    assert((rules + more.push(r)).drop_last() == rules + more);
    assert((rules + more.push(r)).last() == r);
}

} // verus!
