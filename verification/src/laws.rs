//! What holds of the vector's operations taken together.

use vstd::prelude::*;
use vstd::std_specs::cmp::PartialEqSpec;
use crate::header_vec::{previous_address, HeaderVec};
use crate::retained::{dismissed, lemma_retained_is_filter, lemma_retained_len, retained};

verus! {

/// Pushes append in the order in which they are made. Let `states` be a
/// vector as it stands at first and after each of a run of pushes, one push
/// for each of `items`. Then after `i` pushes it holds what it held at first
/// and the first `i` items behind that; a vector that was empty at first
/// holds exactly the items pushed, and its length is their number.
pub proof fn lemma_pushes_in_order<H, T>(states: Seq<HeaderVec<H, T>>, items: Seq<T>)
    requires
        states.len() == items.len() + 1,
        forall|i: int| 0 <= i < states.len() ==> (#[trigger] states[i]).wf(),
        forall|i: int|
            0 <= i < items.len() ==> (#[trigger] states[i + 1])@ == states[i]@.push(items[i]),
    ensures
        forall|i: int|
            0 <= i < states.len() ==> (#[trigger] states[i])@ == states[0]@ + items.take(i)
                && states[i].len() == states[0].len() + i,
        states[0].len() == 0 ==> states.last()@ == items && states.last().len() == items.len(),
{
    assert forall|i: int| 0 <= i < states.len() implies (#[trigger] states[i])@ == states[0]@
        + items.take(i) && states[i].len() == states[0].len() + i by {
        lemma_pushes_up_to(states, items, i);
    }
    if states[0].len() == 0 {
        let n = items.len() as int;
        assert(states[n]@ == states[0]@ + items.take(n));
        assert(items.take(n) =~= items);
        assert(states[0]@ + items =~= items);
    }
}

/// The step of `lemma_pushes_in_order`: what the vector holds after `upto`
/// of the pushes.
proof fn lemma_pushes_up_to<H, T>(states: Seq<HeaderVec<H, T>>, items: Seq<T>, upto: int)
    requires
        states.len() == items.len() + 1,
        0 <= upto < states.len(),
        forall|i: int| 0 <= i < states.len() ==> (#[trigger] states[i]).wf(),
        forall|i: int|
            0 <= i < items.len() ==> (#[trigger] states[i + 1])@ == states[i]@.push(items[i]),
    ensures
        states[upto]@ == states[0]@ + items.take(upto),
        states[upto].len() == states[0].len() + upto,
    decreases upto,
{
    if upto == 0 {
        assert(states[0]@ + items.take(0) =~= states[0]@);
    } else {
        lemma_pushes_up_to(states, items, upto - 1);
        assert(states[(upto - 1) + 1]@ == states[upto - 1]@.push(items[upto - 1]));
        assert(items.take(upto) =~= items.take(upto - 1).push(items[upto - 1]));
        assert(states[0]@ + items.take(upto - 1).push(items[upto - 1]) =~= (states[0]@
            + items.take(upto - 1)).push(items[upto - 1]));
    }
}

/// What a call that may move the buffer returns tells whether it has moved:
/// an address exactly when the address afterwards differs from the one
/// before, and then the one before, never the new one.
pub proof fn lemma_previous_address_tells_a_move(before: usize, after: usize)
    ensures
        previous_address(before, after) is Some <==> after != before,
        previous_address(before, after) is None <==> after == before,
        forall|address: usize|
            previous_address(before, after) == Some(address) ==> address == before && address
                != after,
{
}

/// A vector never holds more elements than it has room for, and it always
/// has room for one.
pub proof fn lemma_capacity_holds_len<H, T>(v: &HeaderVec<H, T>)
    requires
        v.wf(),
    ensures
        1 <= v.capacity(),
        v@.len() == v.len() <= v.capacity(),
{
}

/// Retention by a predicate is a filter: where `f` answers as `pred` does,
/// a vector that held `before` holds `before.filter(pred)` afterwards, and
/// the number of elements that went is the number of those that fail `pred`.
pub proof fn lemma_retain_filters<T, F: FnMut(&T) -> bool>(
    f: F,
    pred: spec_fn(T) -> bool,
    before: Seq<T>,
    after: Seq<T>,
)
    requires
        forall|x: T, answer: bool| call_ensures(f, (&x,), answer) ==> answer == pred(x),
        exists|keep: Seq<bool>|
            {
                &&& keep.len() == before.len()
                &&& forall|i: int|
                    0 <= i < keep.len() ==> call_ensures(f, (&before[i],), #[trigger] keep[i])
                &&& after == retained(before, keep)
            },
    ensures
        after == before.filter(pred),
        before.len() - after.len() == before.filter(|x: T| !pred(x)).len(),
{
    let keep = choose|keep: Seq<bool>|
        {
            &&& keep.len() == before.len()
            &&& forall|i: int|
                0 <= i < keep.len() ==> call_ensures(f, (&before[i],), #[trigger] keep[i])
            &&& after == retained(before, keep)
        };
    assert forall|i: int| 0 <= i < before.len() implies keep[i] == pred(#[trigger] before[i]) by {
        assert(call_ensures(f, (&before[i],), keep[i]));
    }
    lemma_retained_is_filter(before, keep, pred);
    lemma_retained_len(before, keep);
    lemma_dismissed_is_filter(before, keep, pred);
}

/// Where the marks are the values of a predicate, the marks not set are as
/// many as the elements that fail it.
pub proof fn lemma_dismissed_is_filter<T>(items: Seq<T>, keep: Seq<bool>, pred: spec_fn(T) -> bool)
    requires
        items.len() == keep.len(),
        forall|i: int| 0 <= i < items.len() ==> keep[i] == pred(#[trigger] items[i]),
    ensures
        dismissed(keep) == items.filter(|x: T| !pred(x)).len(),
    decreases items.len(),
{
    reveal(Seq::filter);
    if items.len() > 0 {
        lemma_dismissed_is_filter(items.drop_last(), keep.drop_last(), pred);
    }
}

/// A copy equals its source wherever a clone of a header, and of an
/// element, equals what it was cloned from.
pub proof fn lemma_clone_equals_source<H: Clone + PartialEq, T: Clone + PartialEq>(
    source: &HeaderVec<H, T>,
    copy: &HeaderVec<H, T>,
)
    requires
        cloned(source.head(), copy.head()),
        copy@.len() == source@.len(),
        forall|i: int| 0 <= i < source@.len() ==> cloned(source@[i], #[trigger] copy@[i]),
        forall|a: H, b: H| #[trigger] cloned(a, b) ==> a.eq_spec(&b),
        forall|a: T, b: T| #[trigger] cloned(a, b) ==> a.eq_spec(&b),
    ensures
        source.eq_spec(copy),
{
    assert forall|i: int| 0 <= i < source@.len() implies (#[trigger] source@[i]).eq_spec(
        &copy@[i],
    ) by {
        assert(cloned(source@[i], copy@[i]));
    }
}

} // verus!
