//! Handles that name a vector without owning it.

use vstd::prelude::*;
use core::marker::PhantomData;

verus! {

/// A handle that names a vector by the address of its buffer and owns
/// nothing: letting go of it touches no memory. It names the vector for as
/// long as the vector lives and its buffer stays where it was when the handle
/// was made or last brought up to date.
#[derive(Debug)]
pub struct HeaderVecWeak<H, T> {
    address: usize,
    marker: PhantomData<(H, T)>,
}

impl<H, T> HeaderVecWeak<H, T> {
    pub closed spec fn spec_ptr(&self) -> usize {
        self.address
    }

    /// A handle for the buffer at `address`.
    pub(crate) fn at(address: usize) -> (weak: Self)
        ensures
            weak.ptr() == address,
    {
        HeaderVecWeak { address, marker: PhantomData }
    }

    /// The address that the handle names.
    #[verifier::when_used_as_spec(spec_ptr)]
    pub fn ptr(&self) -> (address: usize)
        ensures
            address == self.ptr(),
    {
        self.address
    }

    /// Whether `ptr` is the address that the handle names.
    pub fn is(&self, ptr: usize) -> (same: bool)
        ensures
            same == (self.ptr() == ptr),
    {
        self.address == ptr
    }

    /// Brings the handle up to date: from now on it names what `weak` names.
    pub fn update(&mut self, weak: HeaderVecWeak<H, T>)
        ensures
            final(self).ptr() == weak.ptr(),
    {
        self.address = weak.address;
    }
}

} // verus!
