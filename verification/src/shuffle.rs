//! Unbiased in-place shuffling.
//!
//! The exec shuffle draws its random indices from `rand`; everything else is
//! verified against a functional model of the Fisher–Yates pass: `fy_apply`
//! folds a sequence of picks over a sequence, swapping index `i` (from the
//! top down to 1) with the picked slot in `[0, i]`. The model supports the
//! two facts callers rely on: a pass is always a permutation, and every
//! permutation is reachable by some sequence of picks.

use vstd::prelude::*;

use vstd::seq_lib::group_seq_properties;

verus! {

/// `s` with the elements at `i` and `j` exchanged.
pub open spec fn swap_elems<T>(s: Seq<T>, i: int, j: int) -> Seq<T> {
    s.update(i, s[j]).update(j, s[i])
}

/// The Fisher–Yates pass as a fold: the pick for index `i` is `picks[i - 1]`,
/// and indices are processed from `picks.len()` down to 1.
pub open spec fn fy_apply<T>(s: Seq<T>, picks: Seq<int>) -> Seq<T>
    decreases picks.len(),
{
    if picks.len() == 0 {
        s
    } else {
        fy_apply(swap_elems(s, picks.len() as int, picks.last()), picks.drop_last())
    }
}

/// A complete set of picks for a sequence of length `n`: one pick per index
/// from 1 to `n - 1`, each within `[0, index]`.
pub open spec fn fy_picks_ok(picks: Seq<int>, n: int) -> bool {
    &&& picks.len() == if n <= 1 {
        0int
    } else {
        n - 1
    }
    &&& forall|k: int| 0 <= k < picks.len() ==> 0 <= #[trigger] picks[k] <= k + 1
}

/// Picks that stay strictly below `n`, possibly fewer than a full pass.
pub open spec fn fy_picks_partial(picks: Seq<int>, n: int) -> bool {
    &&& picks.len() == 0 || picks.len() < n
    &&& forall|k: int| 0 <= k < picks.len() ==> 0 <= #[trigger] picks[k] <= k + 1
}

/// Swapping two in-range elements preserves the multiset and the length.
pub proof fn lemma_swap_multiset<T>(s: Seq<T>, i: int, j: int)
    requires
        0 <= i < s.len(),
        0 <= j < s.len(),
    ensures
        swap_elems(s, i, j).to_multiset() == s.to_multiset(),
        swap_elems(s, i, j).len() == s.len(),
{
    broadcast use vstd::seq_lib::group_to_multiset_ensures;
    broadcast use vstd::multiset::group_multiset_axioms;

    if i == j {
        assert(swap_elems(s, i, j) =~= s);
    } else {
        let s1 = s.update(i, s[j]);
        let s2 = s1.update(j, s[i]);
        assert(s1.to_multiset() =~= s.to_multiset().insert(s[j]).remove(s[i]));
        assert(s1[j] == s[j]);
        assert(s2.to_multiset() =~= s1.to_multiset().insert(s[i]).remove(s[j]));
        assert(s.to_multiset().contains(s[i]));
        assert(s.to_multiset().contains(s[j]));
        assert(s2.to_multiset() =~= s.to_multiset());
    }
}

/// A Fisher–Yates pass over in-range picks is a permutation.
pub proof fn lemma_fy_apply_multiset<T>(s: Seq<T>, picks: Seq<int>)
    requires
        fy_picks_partial(picks, s.len() as int),
    ensures
        fy_apply(s, picks).to_multiset() == s.to_multiset(),
        fy_apply(s, picks).len() == s.len(),
    decreases picks.len(),
{
    if picks.len() == 0 {
    } else {
        let i = picks.len() as int;
        let j = picks.last();
        lemma_swap_multiset(s, i, j);
        let s1 = swap_elems(s, i, j);
        assert(fy_picks_partial(picks.drop_last(), s1.len() as int));
        lemma_fy_apply_multiset(s1, picks.drop_last());
    }
}

/// Picks that never reach the last index leave the last element in place, so
/// the pass commutes with dropping it.
proof fn lemma_fy_apply_untouched_last<T>(s: Seq<T>, picks: Seq<int>)
    requires
        s.len() >= 1,
        fy_picks_partial(picks, s.len() - 1),
    ensures
        fy_apply(s, picks) =~= fy_apply(s.drop_last(), picks).push(s.last()),
    decreases picks.len(),
{
    if picks.len() == 0 {
        assert(fy_apply(s, picks) =~= s.drop_last().push(s.last()));
    } else {
        let i = picks.len() as int;
        let j = picks.last();
        let s1 = swap_elems(s, i, j);
        assert(s1.drop_last() =~= swap_elems(s.drop_last(), i, j));
        assert(s1.last() == s.last());
        assert(fy_picks_partial(picks.drop_last(), s1.len() - 1));
        lemma_fy_apply_untouched_last(s1, picks.drop_last());
        assert(fy_apply(s.drop_last(), picks) == fy_apply(
            swap_elems(s.drop_last(), i, j),
            picks.drop_last(),
        ));
    }
}

/// Every ordering with the same multiset is reachable: for any permutation
/// `target` of `s` there is a complete set of in-range picks whose pass
/// turns `s` into `target`. Together with per-index uniformity of the picks
/// (a property of the random source, not provable here) this is what makes
/// the pass unbiased over all orderings.
pub proof fn lemma_fy_reachable<T>(s: Seq<T>, target: Seq<T>)
    requires
        target.to_multiset() == s.to_multiset(),
    ensures
        exists|picks: Seq<int>|
            fy_picks_ok(picks, s.len() as int) && fy_apply(s, picks) =~= target,
    decreases s.len(),
{
    broadcast use vstd::seq_lib::group_to_multiset_ensures;
    broadcast use vstd::multiset::group_multiset_axioms;

    vstd::seq_lib::to_multiset_len(s);
    vstd::seq_lib::to_multiset_len(target);
    assert(s.len() == target.len());
    let n = s.len() as int;
    if n <= 1 {
        let picks = Seq::<int>::empty();
        if n == 1 {
            assert(s.to_multiset().contains(s[0]));
            assert(target.to_multiset().count(s[0]) > 0);
            assert(target.contains(s[0]));
            assert(target[0] == s[0]);
        }
        assert(fy_apply(s, picks) =~= target);
        assert(fy_picks_ok(picks, n) && fy_apply(s, picks) =~= target);
    } else {
        let t_last = target.last();
        assert(target.to_multiset().contains(t_last));
        assert(s.to_multiset().count(t_last) > 0);
        assert(s.contains(t_last));
        let j = choose|j: int| 0 <= j < s.len() && s[j] == t_last;
        let s1 = swap_elems(s, n - 1, j);
        lemma_swap_multiset(s, n - 1, j);
        assert(s1.last() == t_last);
        let a = s1.drop_last();
        let b = target.drop_last();
        assert(s1.remove(n - 1) =~= a);
        assert(target.remove(n - 1) =~= b);
        vstd::seq_lib::to_multiset_remove(s1, n - 1);
        vstd::seq_lib::to_multiset_remove(target, n - 1);
        assert(a.to_multiset() == b.to_multiset());
        lemma_fy_reachable(a, b);
        let picks0 = choose|picks0: Seq<int>|
            fy_picks_ok(picks0, a.len() as int) && fy_apply(a, picks0) =~= b;
        let picks = picks0.push(j);
        assert(picks.drop_last() =~= picks0);
        assert(fy_picks_ok(picks, n));
        assert(fy_apply(s, picks) == fy_apply(s1, picks0));
        assert(fy_picks_partial(picks0, s1.len() - 1));
        lemma_fy_apply_untouched_last(s1, picks0);
        assert(fy_apply(s1, picks0) =~= fy_apply(a, picks0).push(t_last));
        assert(b.push(t_last) =~= target);
        assert(fy_apply(s, picks) =~= target);
    }
}

/// Relies on `<[T]>::swap` (through `Vec`'s deref): exchanges the elements
/// at `i` and `j`; panics only out of bounds, which the precondition rules
/// out.
#[verifier::external_body]
fn vec_swap<T>(v: &mut Vec<T>, i: usize, j: usize)
    requires
        i < old(v)@.len(),
        j < old(v)@.len(),
    ensures
        final(v)@ == swap_elems(old(v)@, i as int, j as int),
{
    v.swap(i, j);
}

/// Relies on `rand::random_range`: a uniformly distributed index below
/// `bound`, drawn from the thread-local generator; panics only on an empty
/// range, which the precondition rules out. Nothing about the value beyond
/// its range can be promised of a random draw.
#[verifier::external_body]
fn random_below(bound: usize) -> (r: usize)
    requires
        1 <= bound,
    ensures
        r < bound,
{
    rand::random_range(0..bound)
}

/// Everything a prefix of a pass still needs from its future picks.
spec fn fy_prefix_ok(rest: Seq<int>, i: int) -> bool {
    &&& rest.len() == i
    &&& forall|k: int| 0 <= k < rest.len() ==> 0 <= #[trigger] rest[k] <= k + 1
}

/// In-place Fisher–Yates shuffle: for index from the top down to 1, swap
/// that slot with a randomly chosen slot in `[0, index]`. The result is a
/// permutation of the input, reached by some complete set of in-range picks.
pub fn fisher_yates<T>(v: &mut Vec<T>)
    ensures
        final(v)@.to_multiset() == old(v)@.to_multiset(),
        final(v)@.len() == old(v)@.len(),
        exists|picks: Seq<int>|
            fy_picks_ok(picks, old(v)@.len() as int) && fy_apply(old(v)@, picks) =~= final(v)@,
{
    broadcast use group_seq_properties;

    let ghost orig = v@;
    let n = v.len();
    if n <= 1 {
        let ghost picks = Seq::<int>::empty();
        assert(fy_picks_ok(picks, orig.len() as int) && fy_apply(orig, picks) =~= v@);
        return ;
    }
    let ghost mut acc = Seq::<int>::empty();
    let mut i: usize = n - 1;
    while 1 <= i
        invariant
            1 <= i + 1 <= n,
            n == v@.len(),
            n == orig.len(),
            v@.to_multiset() == orig.to_multiset(),
            acc.len() == n - 1 - i,
            forall|k: int| 0 <= k < acc.len() ==> 0 <= #[trigger] acc[k] <= i + 1 + k,
            forall|rest: Seq<int>|
                fy_prefix_ok(rest, i as int) ==> fy_apply(orig, #[trigger] (rest + acc)) =~= fy_apply(
                    v@,
                    rest,
                ),
        decreases i,
    {
        let j = random_below(i + 1);
        let ghost before = v@;
        vec_swap(v, i, j);
        proof {
            lemma_swap_multiset(before, i as int, j as int);
            let new_acc = seq![j as int] + acc;
            assert forall|rest: Seq<int>| fy_prefix_ok(rest, i - 1) implies fy_apply(
                orig,
                #[trigger] (rest + new_acc),
            ) =~= fy_apply(v@, rest) by {
                let full = rest.push(j as int);
                assert(fy_prefix_ok(full, i as int));
                assert(rest + new_acc =~= full + acc);
                assert(fy_apply(orig, full + acc) =~= fy_apply(before, full));
                assert(full.last() == j as int);
                assert(full.drop_last() =~= rest);
                assert(fy_apply(before, full) == fy_apply(
                    swap_elems(before, i as int, j as int),
                    rest,
                ));
            }
            acc = new_acc;
        }
        i = i - 1;
    }
    proof {
        let rest = Seq::<int>::empty();
        assert(fy_prefix_ok(rest, 0));
        assert(rest + acc =~= acc);
        assert(fy_apply(orig, acc) =~= fy_apply(v@, rest));
        assert(fy_apply(v@, rest) == v@);
        assert(fy_picks_ok(acc, orig.len() as int));
        assert(fy_picks_ok(acc, orig.len() as int) && fy_apply(orig, acc) =~= v@);
    }
}

} // verus!
