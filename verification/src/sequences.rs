//! Facts about sequences that the loops of this crate rest on.

use vstd::prelude::*;

verus! {

/// Taking one more element into account appends it to the filtered
/// sequence if it passes and changes nothing otherwise.
pub(crate) proof fn lemma_filter_step<A>(s: Seq<A>, pred: spec_fn(A) -> bool, i: int)
    requires
        0 <= i < s.len(),
    ensures
        s.take(i + 1).filter(pred) == if pred(s[i]) {
            s.take(i).filter(pred).push(s[i])
        } else {
            s.take(i).filter(pred)
        },
{
    reveal(Seq::filter);
    assert(s.take(i + 1).drop_last() == s.take(i));
}

/// Filtering a sequence of one element keeps it if it passes and leaves
/// nothing otherwise.
pub(crate) proof fn lemma_filter_one<A>(a: A, pred: spec_fn(A) -> bool)
    ensures
        seq![a].filter(pred) == if pred(a) {
            seq![a]
        } else {
            Seq::<A>::empty()
        },
{
    reveal(Seq::filter);
    assert(seq![a].drop_last() == Seq::<A>::empty());
    assert(Seq::<A>::empty().filter(pred) == Seq::<A>::empty());
}

} // verus!
