//! What a retention leaves: the elements that were marked to stay, in the
//! order they had.

use vstd::prelude::*;

verus! {

/// The elements of `items` whose mark in `keep` is set, in their order.
pub open spec fn retained<T>(items: Seq<T>, keep: Seq<bool>) -> Seq<T>
    recommends
        items.len() == keep.len(),
    decreases items.len(),
{
    if items.len() == 0 {
        Seq::empty()
    } else {
        let before = retained(items.drop_last(), keep.drop_last());
        if keep.last() {
            before.push(items.last())
        } else {
            before
        }
    }
}

/// The number of marks in `keep` that are not set.
pub open spec fn dismissed(keep: Seq<bool>) -> nat
    decreases keep.len(),
{
    if keep.len() == 0 {
        0
    } else if keep.last() {
        dismissed(keep.drop_last())
    } else {
        dismissed(keep.drop_last()) + 1
    }
}

/// One more element and its mark: where the mark is set the element joins
/// what was retained before it, else nothing changes.
pub proof fn lemma_retained_step<T>(items: Seq<T>, keep: Seq<bool>, item: T, mark: bool)
    requires
        items.len() == keep.len(),
    ensures
        retained(items.push(item), keep.push(mark)) == (if mark {
            retained(items, keep).push(item)
        } else {
            retained(items, keep)
        }),
        dismissed(keep.push(mark)) == (if mark {
            dismissed(keep)
        } else {
            dismissed(keep) + 1
        }),
{
    assert(items.push(item).drop_last() =~= items);
    assert(keep.push(mark).drop_last() =~= keep);
}

/// Every element is either retained or dismissed, and none is both.
pub proof fn lemma_retained_len<T>(items: Seq<T>, keep: Seq<bool>)
    requires
        items.len() == keep.len(),
    ensures
        retained(items, keep).len() + dismissed(keep) == items.len(),
    decreases items.len(),
{
    if items.len() > 0 {
        lemma_retained_len(items.drop_last(), keep.drop_last());
    }
}

/// Where the marks are the values of a predicate, what is retained is the
/// sequence filtered by that predicate.
pub proof fn lemma_retained_is_filter<T>(items: Seq<T>, keep: Seq<bool>, pred: spec_fn(T) -> bool)
    requires
        items.len() == keep.len(),
        forall|i: int| 0 <= i < items.len() ==> keep[i] == pred(#[trigger] items[i]),
    ensures
        retained(items, keep) == items.filter(pred),
    decreases items.len(),
{
    reveal(Seq::filter);
    if items.len() > 0 {
        lemma_retained_is_filter(items.drop_last(), keep.drop_last(), pred);
    }
}

} // verus!
