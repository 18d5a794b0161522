//! Facts about keeping part of a sequence, as the stores need them.

use vstd::prelude::*;

verus! {

/// Keeping the elements that all pass a test keeps the whole sequence.
pub proof fn lemma_filter_keeps_all<A>(s: Seq<A>, pred: spec_fn(A) -> bool)
    requires
        forall|i: int| 0 <= i < s.len() ==> pred(s[i]),
    ensures
        s.filter(pred) == s,
    decreases s.len(),
{
    reveal(Seq::filter);
    if s.len() > 0 {
        lemma_filter_keeps_all(s.drop_last(), pred);
    }
}

/// Each element that is kept of a sequence stands somewhere in it.
pub proof fn lemma_filter_source<A>(s: Seq<A>, pred: spec_fn(A) -> bool, i: int) -> (at: int)
    requires
        0 <= i < s.filter(pred).len(),
    ensures
        0 <= at < s.len(),
        s[at] == s.filter(pred)[i],
    decreases s.len(),
{
    reveal(Seq::filter);
    if pred(s.last()) && i == s.filter(pred).len() - 1 {
        s.len() - 1
    } else {
        lemma_filter_source(s.drop_last(), pred, i)
    }
}

/// What is kept of a sequence stands in the order in which it stood: two
/// kept elements come from two places of the sequence in the same order.
pub proof fn lemma_filter_keeps_order<A>(s: Seq<A>, pred: spec_fn(A) -> bool, i: int, j: int) -> (at:
    (int, int))
    requires
        0 <= i < j < s.filter(pred).len(),
    ensures
        0 <= at.0 < at.1 < s.len(),
        s[at.0] == s.filter(pred)[i],
        s[at.1] == s.filter(pred)[j],
    decreases s.len(),
{
    reveal(Seq::filter);
    if pred(s.last()) && j == s.filter(pred).len() - 1 {
        (lemma_filter_source(s.drop_last(), pred, i), s.len() - 1)
    } else {
        lemma_filter_keeps_order(s.drop_last(), pred, i, j)
    }
}

} // verus!
