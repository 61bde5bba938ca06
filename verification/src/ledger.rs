//! Tables with text keys.

use crate::clock;
use crate::clock::Moment;
use crate::text;
use vstd::prelude::*;
use vstd::string::*;

verus! {

/// A table with text keys, none of which occurs twice.
pub struct Ledger<V> {
    entries: Vec<(String, V)>,
}

/// The table that a list of entries stands for.
spec fn contents<V>(entries: Seq<(String, V)>) -> Map<Seq<char>, V>
    decreases entries.len(),
{
    if entries.len() == 0 {
        Map::empty()
    } else {
        contents(entries.drop_last()).insert(entries.last().0@, entries.last().1)
    }
}

spec fn distinct<V>(entries: Seq<(String, V)>) -> bool {
    forall|i: int, j: int|
        0 <= i < j < entries.len() ==> (#[trigger] entries[i]).0@ != (#[trigger] entries[j]).0@
}

spec fn has_key<V>(entries: Seq<(String, V)>, key: Seq<char>) -> bool {
    exists|i: int| 0 <= i < entries.len() && (#[trigger] entries[i]).0@ == key
}

proof fn lemma_contents_keys<V>(entries: Seq<(String, V)>, key: Seq<char>)
    ensures
        contents(entries).contains_key(key) <==> has_key(entries, key),
    decreases entries.len(),
{
    if entries.len() > 0 {
        let rest = entries.drop_last();
        lemma_contents_keys(rest, key);
        if has_key(rest, key) {
            let i = choose|i: int| 0 <= i < rest.len() && (#[trigger] rest[i]).0@ == key;
            assert(entries[i].0@ == key);
        }
        if has_key(entries, key) && entries.last().0@ != key {
            let i = choose|i: int| 0 <= i < entries.len() && (#[trigger] entries[i]).0@ == key;
            assert(rest[i].0@ == key);
        }
        if entries.last().0@ == key {
            assert(entries[entries.len() - 1].0@ == key);
        }
    }
}

proof fn lemma_contents_value<V>(entries: Seq<(String, V)>, i: int)
    requires
        distinct(entries),
        0 <= i < entries.len(),
    ensures
        contents(entries).contains_key(entries[i].0@),
        contents(entries)[entries[i].0@] == entries[i].1,
    decreases entries.len(),
{
    let rest = entries.drop_last();
    assert(distinct(rest)) by {
        assert forall|a: int, b: int| 0 <= a < b < rest.len() implies (#[trigger] rest[a]).0@ != (
        #[trigger] rest[b]).0@ by {
            assert(entries[a].0@ != entries[b].0@);
        }
    }
    if i < rest.len() {
        lemma_contents_value(rest, i);
        assert(rest[i] == entries[i]);
        assert(entries[i].0@ != entries[entries.len() - 1].0@);
    }
}

impl<V> View for Ledger<V> {
    type V = Map<Seq<char>, V>;

    closed spec fn view(&self) -> Map<Seq<char>, V> {
        contents(self.entries@)
    }
}

impl<V> Ledger<V> {
    #[verifier::type_invariant]
    spec fn keys_are_distinct(self) -> bool {
        distinct(self.entries@)
    }

    /// An empty table.
    pub fn new() -> (r: Self)
        ensures
            r@ == Map::<Seq<char>, V>::empty(),
    {
        Ledger { entries: Vec::new() }
    }

    /// The position of `key` among the entries.
    fn position(&self, key: &str) -> (r: Option<usize>)
        ensures
            match r {
                Some(i) => i < self.entries.len() && self.entries@[i as int].0@ == key@,
                None => !has_key(self.entries@, key@),
            },
    {
        for i in 0..self.entries.len()
            invariant
                forall|k: int| 0 <= k < i ==> (#[trigger] self.entries@[k]).0@ != key@,
        {
            if text::same_text(self.entries[i].0.as_str(), key) {
                return Some(i);
            }
        }
        None
    }

    /// Tells whether the table has an entry for `key`.
    pub fn contains_key(&self, key: &str) -> (r: bool)
        ensures
            r == self@.contains_key(key@),
    {
        proof {
            lemma_contents_keys(self.entries@, key@);
        }
        match self.position(key) {
            Some(i) => {
                assert(has_key(self.entries@, key@)) by {
                    assert(self.entries@[i as int].0@ == key@);
                }
                true
            },
            None => false,
        }
    }

    /// Takes the entry for `key` out of the table.
    pub fn remove(&mut self, key: &str) -> (r: Option<V>)
        ensures
            r == (if old(self)@.contains_key(key@) {
                Some(old(self)@[key@])
            } else {
                None
            }),
            final(self)@ == old(self)@.remove(key@),
    {
        proof {
            use_type_invariant(&*self);
        }
        let ghost before = self.entries@;
        let found = self.position(key);
        proof {
            lemma_contents_keys(before, key@);
        }
        match found {
            None => {
                assert(self@.remove(key@) == self@);
                None
            },
            Some(i) => {
                proof {
                    lemma_contents_value(before, i as int);
                }
                let mut entries: Vec<(String, V)> = Vec::new();
                std::mem::swap(&mut entries, &mut self.entries);
                let (_key, value) = entries.remove(i);
                proof {
                    let after = entries@;
                    assert forall|a: int, b: int| 0 <= a < b < after.len() implies (
                    #[trigger] after[a]).0@ != (#[trigger] after[b]).0@ by {
                        let x = if a < i { a } else { a + 1 };
                        let y = if b < i { b } else { b + 1 };
                        assert(before[x].0@ != before[y].0@);
                    }
                    assert forall|k: Seq<char>| #[trigger]
                        contents(after).contains_key(k) == contents(before).remove(
                            key@,
                        ).contains_key(k) && (contents(after).contains_key(k) ==> contents(after)[k]
                            == contents(before)[k]) by {
                        lemma_contents_keys(after, k);
                        lemma_contents_keys(before, k);
                        if has_key(after, k) {
                            let a = choose|a: int|
                                0 <= a < after.len() && (#[trigger] after[a]).0@ == k;
                            let x = if a < i { a } else { a + 1 };
                            assert(before[x] == after[a]);
                            lemma_contents_value(after, a);
                            lemma_contents_value(before, x);
                            if x < i {
                                assert(before[x].0@ != before[i as int].0@);
                            } else {
                                assert(before[i as int].0@ != before[x].0@);
                            }
                        }
                        if has_key(before, k) && k != key@ {
                            let x = choose|x: int|
                                0 <= x < before.len() && (#[trigger] before[x]).0@ == k;
                            let a = if x < i { x } else { x - 1 };
                            assert(after[a] == before[x]);
                        }
                    }
                    assert(contents(after) == contents(before).remove(key@));
                }
                self.entries = entries;
                Some(value)
            },
        }
    }

    /// Sets the entry for `key`.
    pub fn insert(&mut self, key: String, value: V)
        ensures
            final(self)@ == old(self)@.insert(key@, value),
    {
        let ghost start = self@;
        let _old = self.remove(key.as_str());
        proof {
            use_type_invariant(&*self);
        }
        let ghost before = self.entries@;
        let mut entries: Vec<(String, V)> = Vec::new();
        std::mem::swap(&mut entries, &mut self.entries);
        entries.push((key, value));
        proof {
            lemma_contents_keys(before, key@);
            assert(!has_key(before, key@));
            assert(entries@.drop_last() == before);
            assert forall|a: int, b: int| 0 <= a < b < entries@.len() implies (
            #[trigger] entries@[a]).0@ != (#[trigger] entries@[b]).0@ by {
                assert(before[a].0@ != key@);
                if b < before.len() {
                    assert(before[a].0@ != before[b].0@);
                }
            }
            assert(start.remove(key@).insert(key@, value) == start.insert(key@, value));
        }
        self.entries = entries;
    }
}

/// The entries of `m` that are fewer than `secs` seconds old at `now`.
pub open spec fn recent_entries(m: Map<Seq<char>, Moment>, now: Moment, secs: u64) -> Map<
    Seq<char>,
    Moment,
> {
    Map::new(|k: Seq<char>| m.contains_key(k) && clock::recent(now, m[k], secs), |k: Seq<char>| m[k])
}

impl Ledger<Moment> {
    /// Drops the entries that are not fewer than `secs` seconds old at `now`.
    pub fn retain_recent(&mut self, now: Moment, secs: u64)
        ensures
            final(self)@ == recent_entries(old(self)@, now, secs),
    {
        proof {
            use_type_invariant(&*self);
        }
        let ghost before = self.entries@;
        let mut rest: Vec<(String, Moment)> = Vec::new();
        std::mem::swap(&mut rest, &mut self.entries);
        let mut kept: Vec<(String, Moment)> = Vec::new();
        let ghost mut i: int = 0;
        assert(before.skip(0) == before);
        while rest.len() > 0
            invariant
                0 <= i <= before.len(),
                rest@ == before.skip(i),
                kept@ == before.take(i).filter(|e: (String, Moment)| clock::recent(now, e.1, secs)),
            decreases rest.len(),
        {
            let (key, then) = rest.remove(0);
            proof {
                let f = |e: (String, Moment)| clock::recent(now, e.1, secs);
                assert(before.take(i + 1).drop_last() == before.take(i));
                reveal(Seq::filter);
                assert(rest@ == before.skip(i + 1));
                i = i + 1;
            }
            if clock::is_recent(now, then, secs) {
                kept.push((key, then));
            }
        }
        proof {
            assert(before.take(before.len() as int) == before);
            lemma_filtered_contents(before, kept@, now, secs);
        }
        self.entries = kept;
    }
}

proof fn lemma_filtered_contents(
    before: Seq<(String, Moment)>,
    after: Seq<(String, Moment)>,
    now: Moment,
    secs: u64,
)
    requires
        distinct(before),
        after == before.filter(|e: (String, Moment)| clock::recent(now, e.1, secs)),
    ensures
        distinct(after),
        contents(after) == recent_entries(contents(before), now, secs),
    decreases before.len(),
{
    reveal(Seq::filter);
    let f = |e: (String, Moment)| clock::recent(now, e.1, secs);
    if before.len() > 0 {
        let rest = before.drop_last();
        let last = before.last();
        assert forall|a: int, b: int| 0 <= a < b < rest.len() implies (#[trigger] rest[a]).0@ != (
        #[trigger] rest[b]).0@ by {
            assert(before[a].0@ != before[b].0@);
        }
        lemma_filtered_contents(rest, rest.filter(f), now, secs);
        let key = last.0@;
        lemma_contents_keys(rest, key);
        assert(!has_key(rest, key)) by {
            if has_key(rest, key) {
                let a = choose|a: int| 0 <= a < rest.len() && (#[trigger] rest[a]).0@ == key;
                assert(before[a].0@ != before[before.len() - 1].0@);
            }
        }
        let kept = rest.filter(f);
        lemma_contents_keys(kept, key);
        if f(last) {
            assert(after == kept.push(last));
            assert(after.drop_last() == kept);
            assert forall|a: int, b: int| 0 <= a < b < after.len() implies (
            #[trigger] after[a]).0@ != (#[trigger] after[b]).0@ by {
                assert(kept[a].0@ != key);
                if b < kept.len() {
                    assert(kept[a].0@ != kept[b].0@);
                }
            }
        }
        assert(contents(after) == recent_entries(contents(before), now, secs));
    } else {
        assert(contents(after) == recent_entries(contents(before), now, secs));
    }
}

/// Of the entries those are kept that are fewer than the given number of seconds old, and they stay
/// as they are.
pub proof fn law_recent_entries_are_kept(
    m: Map<Seq<char>, Moment>,
    now: Moment,
    secs: u64,
    key: Seq<char>,
)
    ensures
        recent_entries(m, now, secs).contains_key(key) <==> m.contains_key(key) && clock::recent(
            now,
            m[key],
            secs,
        ),
        recent_entries(m, now, secs).contains_key(key) ==> recent_entries(m, now, secs)[key]
            == m[key],
{
}

/// What is set in a table is found there, what is taken out is not, and other entries stay.
pub proof fn law_tables_hold_what_is_set<V>(
    t: &mut Ledger<V>,
    key: String,
    value: V,
    u: &mut Ledger<V>,
    gone: &str,
    taken: Option<V>,
    other: Seq<char>,
)
    requires
        call_ensures(Ledger::<V>::insert, (t, key, value), ()),
        call_ensures(Ledger::<V>::remove, (u, gone), taken),
        other != key@,
        other != gone@,
    ensures
        final(t)@.contains_key(key@),
        final(t)@[key@] == value,
        final(t)@.contains_key(other) <==> old(t)@.contains_key(other),
        old(t)@.contains_key(other) ==> final(t)@[other] == old(t)@[other],
        !final(u)@.contains_key(gone@),
        taken is Some <==> old(u)@.contains_key(gone@),
        taken matches Some(v) ==> v == old(u)@[gone@],
        final(u)@.contains_key(other) <==> old(u)@.contains_key(other),
        old(u)@.contains_key(other) ==> final(u)@[other] == old(u)@[other],
{
}

/// Of the entries of a table exactly those stay that are fewer than the given number of seconds old.
pub proof fn law_tables_forget(t: &mut Ledger<Moment>, now: Moment, secs: u64, key: Seq<char>)
    requires
        call_ensures(Ledger::<Moment>::retain_recent, (t, now, secs), ()),
    ensures
        final(t)@.contains_key(key) <==> old(t)@.contains_key(key) && clock::recent(
            now,
            old(t)@[key],
            secs,
        ),
        final(t)@.contains_key(key) ==> final(t)@[key] == old(t)@[key],
{
}

} // verus!
