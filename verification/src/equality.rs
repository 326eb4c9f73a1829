//! When two vectors are equal: when their headers are and their elements
//! are, one by one. Capacity and address play no part.

use vstd::prelude::*;
use vstd::std_specs::cmp::PartialEqSpec;
use core::ops::Deref;
use crate::header_vec::HeaderVec;

verus! {

impl<H: PartialEq, T: PartialEq> PartialEq for HeaderVec<H, T> {
    fn eq(&self, other: &Self) -> (equal: bool) {
        let mine: &[T] = self.as_slice();
        let theirs: &[T] = other.as_slice();
        if !(*self.deref() == *other.deref()) {
            return false;
        }
        if mine.len() != theirs.len() {
            return false;
        }
        let mut index: usize = 0;
        while index < mine.len()
            invariant
                mine@ == self@,
                theirs@ == other@,
                mine@.len() == theirs@.len(),
                index <= mine@.len(),
                T::obeys_eq_spec() ==> forall|i: int|
                    0 <= i < index ==> (#[trigger] self@[i]).eq_spec(&other@[i]),
            decreases mine@.len() - index,
        {
            if !(mine[index] == theirs[index]) {
                return false;
            }
            index += 1;
        }
        true
    }
}

impl<H: PartialEq, T: PartialEq> vstd::std_specs::cmp::PartialEqSpecImpl for HeaderVec<H, T> {
    open spec fn obeys_eq_spec() -> bool {
        H::obeys_eq_spec() && T::obeys_eq_spec()
    }

    open spec fn eq_spec(&self, other: &HeaderVec<H, T>) -> bool {
        &&& self.head().eq_spec(&other.head())
        &&& self@.len() == other@.len()
        &&& forall|i: int| 0 <= i < self@.len() ==> (#[trigger] self@[i]).eq_spec(&other@[i])
    }
}

} // verus!
