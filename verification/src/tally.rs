//! Counting the elements of a sequence that satisfy a predicate.

use vstd::prelude::*;

verus! {

/// The number of elements of `s` that satisfy `pred`.
pub open spec fn tally<A>(s: Seq<A>, pred: spec_fn(A) -> bool) -> nat
    decreases s.len(),
{
    if s.len() == 0 {
        0
    } else {
        tally(s.drop_last(), pred) + if pred(s.last()) {
            1nat
        } else {
            0nat
        }
    }
}

/// No more elements satisfy a predicate than there are elements.
pub proof fn lemma_tally_bound<A>(s: Seq<A>, pred: spec_fn(A) -> bool)
    ensures
        tally(s, pred) <= s.len(),
    decreases s.len(),
{
    if s.len() > 0 {
        lemma_tally_bound(s.drop_last(), pred);
    }
}

/// Appending one element adds one to the count if it satisfies the
/// predicate.
pub proof fn lemma_tally_push<A>(s: Seq<A>, pred: spec_fn(A) -> bool, a: A)
    ensures
        tally(s.push(a), pred) == tally(s, pred) + if pred(a) {
            1nat
        } else {
            0nat
        },
{
    assert(s.push(a).drop_last() =~= s);
}

/// Two sequences of one length have the same count, each for its own
/// predicate, where the predicates agree position by position.
pub proof fn lemma_tally_pointwise<A, B>(
    a: Seq<A>,
    pred_a: spec_fn(A) -> bool,
    b: Seq<B>,
    pred_b: spec_fn(B) -> bool,
)
    requires
        a.len() == b.len(),
        forall|i: int| 0 <= i < a.len() ==> pred_a(a[i]) == pred_b(b[i]),
    ensures
        tally(a, pred_a) == tally(b, pred_b),
    decreases a.len(),
{
    if a.len() > 0 {
        lemma_tally_pointwise(a.drop_last(), pred_a, b.drop_last(), pred_b);
    }
}

/// Replacing one element changes the count by what the old and the new
/// element contribute.
pub proof fn lemma_tally_update<A>(s: Seq<A>, pred: spec_fn(A) -> bool, i: int, a: A)
    requires
        0 <= i < s.len(),
    ensures
        tally(s.update(i, a), pred) + (if pred(s[i]) {
            1nat
        } else {
            0nat
        }) == tally(s, pred) + (if pred(a) {
            1nat
        } else {
            0nat
        }),
    decreases s.len(),
{
    if i == s.len() - 1 {
        assert(s.update(i, a).drop_last() =~= s.drop_last());
    } else {
        assert(s.update(i, a).drop_last() =~= s.drop_last().update(i, a));
        lemma_tally_update(s.drop_last(), pred, i, a);
    }
}

/// The count is zero exactly if no element satisfies the predicate.
pub proof fn lemma_tally_zero<A>(s: Seq<A>, pred: spec_fn(A) -> bool)
    ensures
        tally(s, pred) == 0 <==> forall|i: int| 0 <= i < s.len() ==> !pred(#[trigger] s[i]),
    decreases s.len(),
{
    if s.len() > 0 {
        lemma_tally_zero(s.drop_last(), pred);
        if tally(s, pred) == 0 {
            assert forall|i: int| 0 <= i < s.len() implies !pred(#[trigger] s[i]) by {
                if i < s.len() - 1 {
                    assert(s.drop_last()[i] == s[i]);
                }
            }
        } else if forall|i: int| 0 <= i < s.len() ==> !pred(#[trigger] s[i]) {
            assert(!pred(s[s.len() - 1]));
            assert forall|i: int| 0 <= i < s.drop_last().len() implies !pred(
                #[trigger] s.drop_last()[i],
            ) by {
                assert(s.drop_last()[i] == s[i]);
            }
        }
    }
}

} // verus!
