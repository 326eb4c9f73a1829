//! The calls into `Vec` that manage the element buffer itself. Nothing in
//! this file is proved: each contract restates what the standard library
//! documents of the method that the body calls.

use vstd::prelude::*;
use vstd::layout::size_of;

verus! {

/// `Vec::as_ptr`, its result turned into a number: the address at which the
/// buffer of `items` starts. Which address the allocator hands out is not
/// ours to say, so nothing is claimed of it.
#[verifier::external_body]
pub(crate) fn buffer_address<T>(items: &Vec<T>) -> (address: usize) {
    items.as_ptr() as usize
}

/// `Vec::reserve_exact`: makes room for `additional` more elements and keeps
/// the elements as they are. The method panics once the room asked for
/// exceeds `isize::MAX` bytes, and for elements of size zero once their
/// number exceeds `usize::MAX`. The precondition rules out both: it admits
/// no element of size zero, and with any other the bytes bound the number.
#[verifier::external_body]
pub(crate) fn reserve_exact_items<T>(items: &mut Vec<T>, additional: usize)
    requires
        size_of::<T>() > 0,
        (old(items)@.len() + additional) * size_of::<T>() <= isize::MAX,
    ensures
        final(items)@ == old(items)@,
{
    items.reserve_exact(additional)
}

/// `Vec::shrink_to`: gives back room beyond `min_capacity` elements, never
/// below the current length, and keeps the elements as they are.
#[verifier::external_body]
pub(crate) fn shrink_items_to<T>(items: &mut Vec<T>, min_capacity: usize)
    ensures
        final(items)@ == old(items)@,
{
    items.shrink_to(min_capacity)
}

/// `<[T]>::swap`: exchanges the elements at `a` and `b`. The method panics on
/// an index out of bounds, which the precondition rules out.
#[verifier::external_body]
pub(crate) fn swap_items<T>(items: &mut Vec<T>, a: usize, b: usize)
    requires
        a < old(items)@.len(),
        b < old(items)@.len(),
    ensures
        final(items)@ == old(items)@.update(a as int, old(items)@[b as int]).update(
            b as int,
            old(items)@[a as int],
        ),
{
    items.swap(a, b)
}

} // verus!
