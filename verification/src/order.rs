//! Stable sorting.

use vstd::prelude::*;

verus! {

/// Items that can be put in order. The order need not tell any two items apart.
pub trait Ranked: Sized {
    /// Whether this item must stand before `other`.
    spec fn ranks_before(&self, other: &Self) -> bool;

    /// No item must stand before itself.
    proof fn rank_irreflexive(a: &Self)
        ensures
            !a.ranks_before(a),
    ;

    /// What must not stand before an item need not stand before what that item must not stand
    /// before.
    proof fn rank_negatively_transitive(a: &Self, b: &Self, c: &Self)
        requires
            !a.ranks_before(b),
            !b.ranks_before(c),
        ensures
            !a.ranks_before(c),
    ;

    /// The order is transitive.
    proof fn rank_transitive(a: &Self, b: &Self, c: &Self)
        requires
            a.ranks_before(b),
            b.ranks_before(c),
        ensures
            a.ranks_before(c),
    ;

    /// Tells whether this item must stand before `other`.
    fn is_before(&self, other: &Self) -> (r: bool)
        ensures
            r == self.ranks_before(other),
    ;
}

/// Whether `p` holds each of the positions below `n` once.
pub open spec fn permutation(p: Seq<int>, n: nat) -> bool {
    &&& p.len() == n
    &&& forall|i: int| 0 <= i < n ==> 0 <= #[trigger] p[i] < n
    &&& forall|i: int, j: int| 0 <= i < j < n ==> p[i] != p[j]
    &&& forall|d: int| 0 <= d < n ==> #[trigger] p.contains(d)
}

/// Whether the item at position `d` of `s` goes before the one at `e`: by rank, and among equals
/// by position.
pub open spec fn goes_before<T: Ranked>(s: Seq<T>, d: int, e: int) -> bool {
    s[d].ranks_before(&s[e]) || (!s[e].ranks_before(&s[d]) && d < e)
}

/// Whether `output` is `input` with its positions taken in the order `p`, and that order is by
/// rank, equals staying in the order in which they came.
pub open spec fn sorted_by_positions<T: Ranked>(p: Seq<int>, input: Seq<T>, output: Seq<T>) -> bool {
    &&& permutation(p, input.len())
    &&& output.len() == input.len()
    &&& forall|i: int| 0 <= i < input.len() ==> output[i] == input[#[trigger] p[i]]
    &&& forall|i: int, j: int|
        0 <= i < j < input.len() ==> goes_before(input, #[trigger] p[i], #[trigger] p[j])
}

/// Whether `output` holds the items of `input` by rank, equals in the order in which they came.
pub open spec fn stable_sort_of<T: Ranked>(input: Seq<T>, output: Seq<T>) -> bool {
    exists|p: Seq<int>| sorted_by_positions(p, input, output)
}

/// Puts the items in order of rank, equals in the order in which they came.
pub fn stable_sort<T: Ranked>(items: Vec<T>) -> (r: Vec<T>)
    ensures
        stable_sort_of(items@, r@),
{
    let ghost input = items@;
    let mut rest = items;
    let mut out: Vec<T> = Vec::new();
    let ghost mut p: Seq<int> = Seq::empty();
    assert(input.take(0) == out@);
    while rest.len() > 0
        invariant
            out.len() + rest.len() == input.len(),
            rest@ == input.skip(out.len() as int),
            sorted_by_positions(p, input.take(out.len() as int), out@),
        decreases rest.len(),
    {
        let item = rest.remove(0);
        let ghost n = out.len() as int;
        assert(item == input[n]);
        let mut at: usize = 0;
        while at < out.len() && !item.is_before(&out[at])
            invariant
                at <= out.len(),
                forall|i: int| 0 <= i < at ==> !item.ranks_before(#[trigger] &out@[i]),
            decreases out.len() - at,
        {
            at = at + 1;
        }
        proof {
            let seen = input.take(n);
            let next = input.take(n + 1);
            let q = p.insert(at as int, n);
            if at < n {
                assert forall|i: int| at <= i < n implies item.ranks_before(
                    #[trigger] &out@[i],
                ) by {
                    if i > at && !item.ranks_before(&out@[i]) {
                        assert(goes_before(seen, p[at as int], p[i]));
                        if !out@[i].ranks_before(&out@[at as int]) {
                            T::rank_negatively_transitive(&item, &out@[i], &out@[at as int]);
                        } else {
                            T::rank_transitive(&out@[i], &out@[at as int], &out@[i]);
                            T::rank_irreflexive(&out@[i]);
                        }
                    }
                }
            }
            assert forall|d: int| 0 <= d < n + 1 implies #[trigger] q.contains(d) by {
                if d == n {
                    assert(q[at as int] == d);
                } else {
                    assert(p.contains(d));
                    let k = choose|k: int| 0 <= k < p.len() && p[k] == d;
                    if k < at {
                        assert(q[k] == d);
                    } else {
                        assert(q[k + 1] == d);
                    }
                }
            }
            assert(permutation(q, next.len()));
            assert forall|i: int, j: int| 0 <= i < j < n + 1 implies goes_before(
                next,
                #[trigger] q[i],
                #[trigger] q[j],
            ) by {
                let a = if i < at { i } else { i - 1 };
                let b = if j < at { j } else { j - 1 };
                if i == at {
                    assert(q[j] == p[b] && out@[b] == seen[p[b]]);
                } else if j == at {
                    assert(q[i] == p[a] && out@[a] == seen[p[a]]);
                } else {
                    assert(goes_before(seen, p[a], p[b]));
                }
            }
            assert forall|i: int| 0 <= i < n + 1 implies out@.insert(at as int, item)[i]
                == next[#[trigger] q[i]] by {
                let a = if i < at { i } else { i - 1 };
                if i != at {
                    assert(out@[a] == seen[p[a]]);
                }
            }
            p = q;
        }
        out.insert(at, item);
        assert(rest@ == input.skip(out.len() as int));
    }
    assert(input.take(out.len() as int) == input);
    out
}

/// The order of rank, equals in the order in which they came, is the only one of its kind: two
/// results for the same items are the same.
pub proof fn law_stable_sort_is_unique<T: Ranked>(input: Seq<T>, one: Seq<T>, other: Seq<T>)
    requires
        stable_sort_of(input, one),
        stable_sort_of(input, other),
    ensures
        one == other,
{
    let p = choose|p: Seq<int>| sorted_by_positions(p, input, one);
    let q = choose|q: Seq<int>| sorted_by_positions(q, input, other);
    lemma_same_positions(p, q, input, one, other, input.len() as int);
    assert forall|i: int| 0 <= i < one.len() implies one[i] == other[i] by {
        assert(p[i] == q[i]);
    }
    assert(one == other);
}

proof fn lemma_same_positions<T: Ranked>(
    p: Seq<int>,
    q: Seq<int>,
    input: Seq<T>,
    one: Seq<T>,
    other: Seq<T>,
    k: int,
)
    requires
        sorted_by_positions(p, input, one),
        sorted_by_positions(q, input, other),
        0 <= k <= input.len(),
    ensures
        forall|i: int| 0 <= i < k ==> #[trigger] p[i] == q[i],
    decreases k,
{
    if k > 0 {
        lemma_same_positions(p, q, input, one, other, k - 1);
        let d = p[k - 1];
        let e = q[k - 1];
        if d != e {
            assert(q.contains(d));
            assert(p.contains(e));
            let i = choose|i: int| 0 <= i < q.len() && q[i] == d;
            let j = choose|j: int| 0 <= j < p.len() && p[j] == e;
            assert(i > k - 1) by {
                if i < k - 1 {
                    assert(p[i] == q[i]);
                }
            }
            assert(j > k - 1) by {
                if j < k - 1 {
                    assert(p[j] == q[j]);
                }
            }
            assert(goes_before(input, q[k - 1], q[i]));
            assert(goes_before(input, p[k - 1], p[j]));
            if input[d].ranks_before(&input[e]) && input[e].ranks_before(&input[d]) {
                T::rank_transitive(&input[d], &input[e], &input[d]);
                T::rank_irreflexive(&input[d]);
            }
        }
    }
}

/// Sorting neither adds nor loses an item.
pub proof fn law_stable_sort_keeps_items<T: Ranked>(input: Seq<T>, output: Seq<T>)
    requires
        stable_sort_of(input, output),
    ensures
        output.len() == input.len(),
        forall|x: T| output.contains(x) <==> input.contains(x),
{
    let p = choose|p: Seq<int>| sorted_by_positions(p, input, output);
    assert forall|x: T| input.contains(x) implies output.contains(x) by {
        let d = choose|d: int| 0 <= d < input.len() && input[d] == x;
        assert(p.contains(d));
        let k = choose|k: int| 0 <= k < p.len() && p[k] == d;
        assert(output[k] == x);
    }
    assert forall|x: T| output.contains(x) implies input.contains(x) by {
        let k = choose|k: int| 0 <= k < output.len() && output[k] == x;
        assert(input[p[k]] == x);
    }
}

/// No item of a sorted sequence must stand before one that is in front of it.
pub proof fn law_stable_sort_is_in_order<T: Ranked>(input: Seq<T>, output: Seq<T>)
    requires
        stable_sort_of(input, output),
    ensures
        forall|i: int, j: int|
            0 <= i < j < output.len() ==> !(#[trigger] output[j]).ranks_before(
                #[trigger] &output[i],
            ),
{
    let p = choose|p: Seq<int>| sorted_by_positions(p, input, output);
    assert forall|i: int, j: int| 0 <= i < j < output.len() implies !(
    #[trigger] output[j]).ranks_before(#[trigger] &output[i]) by {
        assert(goes_before(input, p[i], p[j]));
        if output[j].ranks_before(&output[i]) {
            T::rank_transitive(&output[j], &output[i], &output[j]);
            T::rank_irreflexive(&output[j]);
        }
    }
}

/// Where no two items have the same key, no two have it after sorting.
pub proof fn law_stable_sort_keeps_keys_apart<T: Ranked, K>(
    input: Seq<T>,
    output: Seq<T>,
    key: spec_fn(T) -> K,
)
    requires
        stable_sort_of(input, output),
        forall|i: int, j: int|
            0 <= i < j < input.len() ==> key(#[trigger] input[i]) != key(#[trigger] input[j]),
    ensures
        forall|i: int, j: int|
            0 <= i < j < output.len() ==> key(#[trigger] output[i]) != key(#[trigger] output[j]),
{
    let p = choose|p: Seq<int>| sorted_by_positions(p, input, output);
    assert forall|i: int, j: int| 0 <= i < j < output.len() implies key(#[trigger] output[i]) != key(
        #[trigger] output[j],
    ) by {
        assert(output[i] == input[p[i]] && output[j] == input[p[j]]);
        if p[i] < p[j] {
            assert(key(input[p[i]]) != key(input[p[j]]));
        } else {
            assert(p[j] < p[i]);
            assert(key(input[p[j]]) != key(input[p[i]]));
        }
    }
}

/// Sorting puts each item in a place of its own, none after one that must stand behind it, and leaves
/// equals in the order in which they came.
pub proof fn law_sorting_is_stable<T: Ranked>(items: Vec<T>, r: Vec<T>)
    requires
        call_ensures(stable_sort, (items,), r),
    ensures
        r@.len() == items@.len(),
        stable_sort_of(items@, r@),
        exists|p: Seq<int>|
            #![trigger p.len()]
            {
                &&& p.len() == items@.len()
                &&& forall|i: int|
                    0 <= i < p.len() ==> 0 <= #[trigger] p[i] < p.len() && r@[i] == items@[p[i]]
                &&& forall|i: int, j: int|
                    0 <= i < j < p.len() ==> #[trigger] p[i] != #[trigger] p[j]
                &&& forall|i: int, j: int|
                    #![trigger p[i], p[j]]
                    0 <= i < j < p.len() ==> !r@[j].ranks_before(&r@[i]) && (!r@[i].ranks_before(
                        &r@[j],
                    ) ==> p[i] < p[j])
            },
{
    let p = choose|p: Seq<int>| sorted_by_positions(p, items@, r@);
    law_stable_sort_is_in_order(items@, r@);
    assert forall|i: int, j: int| 0 <= i < j < p.len() implies !r@[j].ranks_before(&r@[i]) && (
    !r@[i].ranks_before(&r@[j]) ==> #[trigger] p[i] < #[trigger] p[j]) by {
        assert(r@[i] == items@[p[i]] && r@[j] == items@[p[j]]);
        assert(goes_before(items@, p[i], p[j]));
    }
    assert(p.len() == items@.len());
}

} // verus!
