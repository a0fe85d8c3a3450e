//! Newest-first selections from the append-only stores.

use vstd::prelude::*;

verus! {

/// The elements of `s` satisfying `pred`, newest (last) first.
pub open spec fn rev_filter<T>(s: Seq<T>, pred: spec_fn(T) -> bool) -> Seq<T>
    decreases s.len(),
{
    if s.len() == 0 {
        Seq::empty()
    } else if pred(s.last()) {
        seq![s.last()] + rev_filter(s.drop_last(), pred)
    } else {
        rev_filter(s.drop_last(), pred)
    }
}

/// Prepending an element to the scanned range appends it (when selected)
/// to the newest-first selection.
pub proof fn lemma_rev_filter_prepend<T>(x: T, s: Seq<T>, pred: spec_fn(T) -> bool)
    ensures
        rev_filter(seq![x] + s, pred) == rev_filter(s, pred) + (if pred(x) {
            seq![x]
        } else {
            Seq::<T>::empty()
        }),
    decreases s.len(),
{
    let xs = seq![x] + s;
    if s.len() == 0 {
        assert(xs.len() == 1);
        assert(xs.last() == x);
        assert(xs.drop_last() =~= Seq::<T>::empty());
        assert(rev_filter(Seq::<T>::empty(), pred) == Seq::<T>::empty());
        assert(rev_filter(s, pred) == Seq::<T>::empty());
        if pred(x) {
            assert(rev_filter(xs, pred) == seq![x] + Seq::<T>::empty());
            assert(seq![x] + Seq::<T>::empty() =~= Seq::<T>::empty() + seq![x]);
        } else {
            assert(rev_filter(xs, pred) == Seq::<T>::empty());
            assert(Seq::<T>::empty() =~= Seq::<T>::empty() + Seq::<T>::empty());
        }
    } else {
        assert(xs.last() == s.last());
        assert(xs.drop_last() =~= seq![x] + s.drop_last());
        lemma_rev_filter_prepend(x, s.drop_last(), pred);
        if pred(s.last()) {
            assert(rev_filter(xs, pred) == seq![s.last()] + rev_filter(
                seq![x] + s.drop_last(),
                pred,
            ));
            assert(seq![s.last()] + (rev_filter(s.drop_last(), pred) + (if pred(x) {
                seq![x]
            } else {
                Seq::<T>::empty()
            })) =~= (seq![s.last()] + rev_filter(s.drop_last(), pred)) + (if pred(x) {
                seq![x]
            } else {
                Seq::<T>::empty()
            }));
        } else {
            assert(rev_filter(xs, pred) == rev_filter(seq![x] + s.drop_last(), pred));
        }
    }
}

} // verus!
