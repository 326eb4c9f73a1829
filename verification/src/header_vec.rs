//! The vector itself: a header, a capacity that follows a fixed growth
//! policy, a run of elements, and the address of the buffer that holds them.

use vstd::prelude::*;
use core::ops::{Deref, DerefMut, Index};
use core::slice::SliceIndex;
use vstd::slice::SliceIndexSpec;
use vstd::layout::{align_of, size_of, valid_layout};
use crate::buffer::{buffer_address, reserve_exact_items, shrink_items_to, swap_items};
use crate::retained::{lemma_retained_step, retained};
use crate::weak::HeaderVecWeak;
use crate::layout::{
    div_ceil, div_ceil_usize, lemma_amortized_capacity, lemma_div_ceil_is_least_cover,
    resized_capacity, shrunk_capacity, MemLayout,
};

verus! {

/// What a resize reports of the buffer's address: the address before the
/// call where the buffer has moved, nothing where it has stayed.
pub open spec fn previous_address(before: usize, after: usize) -> Option<usize> {
    if after != before {
        Some(before)
    } else {
        None
    }
}

/// What stands in front of the elements: the caller's header value and the
/// vector's own bookkeeping.
#[derive(Debug)]
pub struct HeaderVecHeader<H> {
    head: H,
    capacity: usize,
    len: usize,
}

/// A vector of `T` with a header `H`.
///
/// The fields are dropped in the order in which they stand: the header first,
/// then the elements from the first to the last, then their buffer.
#[derive(Debug)]
pub struct HeaderVec<H, T> {
    header: HeaderVecHeader<H>,
    items: Vec<T>,
    address: usize,
}

impl<H, T> View for HeaderVec<H, T> {
    type V = Seq<T>;

    closed spec fn view(&self) -> Seq<T> {
        self.items@
    }
}

impl<H, T> HeaderVec<H, T> {
    /// The header value.
    pub closed spec fn head(&self) -> H {
        self.header.head
    }

    /// The number of elements, as the header records it.
    pub closed spec fn spec_len(&self) -> usize {
        self.header.len
    }

    /// The number of elements that the vector has room for.
    pub closed spec fn spec_capacity(&self) -> usize {
        self.header.capacity
    }

    /// The address of the buffer.
    pub closed spec fn spec_ptr(&self) -> usize {
        self.address
    }

    /// The number of element slots that the header record takes up in front
    /// of the elements.
    pub open spec fn spec_offset() -> nat
        recommends
            size_of::<T>() > 0,
    {
        div_ceil(size_of::<HeaderVecHeader<H>>(), size_of::<T>())
    }

    /// The number of element slots of a block that holds the header record
    /// and `capacity` elements.
    pub open spec fn spec_mem_elems(capacity: nat) -> nat {
        Self::spec_offset() + capacity
    }

    /// The size in bytes of that block.
    pub open spec fn spec_mem_bytes(capacity: nat) -> nat {
        Self::spec_mem_elems(capacity) * size_of::<T>()
    }

    /// The alignment of that block: the stricter of the header's and the
    /// elements'.
    pub open spec fn spec_align() -> nat {
        if align_of::<H>() >= align_of::<T>() {
            align_of::<H>()
        } else {
            align_of::<T>()
        }
    }

    /// The block of memory that a vector of `capacity` elements asks for, if
    /// there is one: elements of size zero have none, nor has a capacity whose
    /// block would not fit the address space.
    pub open spec fn spec_layout(capacity: nat) -> Option<MemLayout> {
        if size_of::<T>() > 0 && Self::spec_mem_bytes(capacity) <= usize::MAX
            && Self::spec_align() <= usize::MAX && valid_layout(
            Self::spec_mem_bytes(capacity) as usize,
            Self::spec_align() as usize,
        ) {
            Some(
                MemLayout {
                    size: Self::spec_mem_bytes(capacity) as usize,
                    align: Self::spec_align() as usize,
                },
            )
        } else {
            None
        }
    }

    /// What holds of every vector that this library hands out.
    pub open spec fn wf(&self) -> bool {
        &&& 1 <= self.capacity()
        &&& self.len() <= self.capacity()
        &&& self.len() == self@.len()
        &&& Self::spec_layout(self.capacity() as nat) is Some
    }

    /// The slots that the header record takes up, or `None` for elements of
    /// size zero.
    fn offset() -> (slots: Option<usize>)
        ensures
            slots == (if size_of::<T>() > 0 {
                Some(Self::spec_offset() as usize)
            } else {
                None
            }),
            slots is Some ==> slots->0 == Self::spec_offset(),
    {
        let elem_size: usize = core::mem::size_of::<T>();
        if elem_size == 0 {
            None
        } else {
            Some(div_ceil_usize(core::mem::size_of::<HeaderVecHeader<H>>(), elem_size))
        }
    }

    /// The slots of the whole block for `capacity` elements, or `None` where
    /// there is no such number.
    fn elems_to_mem_elems(capacity: usize) -> (slots: Option<usize>)
        ensures
            slots == (if size_of::<T>() > 0 && Self::spec_mem_elems(capacity as nat) <= usize::MAX {
                Some(Self::spec_mem_elems(capacity as nat) as usize)
            } else {
                None
            }),
    {
        match Self::offset() {
            Some(offset) => offset.checked_add(capacity),
            None => None,
        }
    }

    /// The bytes of the whole block for `capacity` elements, or `None` where
    /// there is no such number.
    fn elems_to_mem_bytes(capacity: usize) -> (bytes: Option<usize>)
        ensures
            bytes == (if size_of::<T>() > 0 && Self::spec_mem_bytes(capacity as nat) <= usize::MAX {
                Some(Self::spec_mem_bytes(capacity as nat) as usize)
            } else {
                None
            }),
    {
        match Self::elems_to_mem_elems(capacity) {
            Some(slots) => slots.checked_mul(core::mem::size_of::<T>()),
            None => {
                proof {
                    if size_of::<T>() > 0 {
                        assert(Self::spec_mem_elems(capacity as nat) * size_of::<T>()
                            >= Self::spec_mem_elems(capacity as nat)) by (nonlinear_arith)
                            requires
                                size_of::<T>() > 0,
                        ;
                    }
                }
                None
            },
        }
    }

    /// The block of memory that a vector of `capacity` elements asks for, or
    /// `None` where there is none.
    pub fn layout(capacity: usize) -> (layout: Option<MemLayout>)
        ensures
            layout == Self::spec_layout(capacity as nat),
    {
        let align_head: usize = core::mem::align_of::<H>();
        let align_elem: usize = core::mem::align_of::<T>();
        let align: usize = if align_head >= align_elem {
            align_head
        } else {
            align_elem
        };
        proof {
            broadcast use {vstd::layout::align_properties, vstd::layout::align_nonzero};
        }
        match Self::elems_to_mem_bytes(capacity) {
            Some(size) => {
                let most: usize = isize::MAX as usize;
                assert(most % align <= most) by (nonlinear_arith)
                    requires
                        align > 0,
                ;
                let limit: usize = most - most % align;
                if size <= limit {
                    Some(MemLayout { size, align })
                } else {
                    None
                }
            },
            None => None,
        }
    }

    /// An empty vector with room for one element.
    pub fn new(head: H) -> (v: Self)
        requires
            Self::spec_layout(1) is Some,
        ensures
            v.wf(),
            v@ == Seq::<T>::empty(),
            v.len() == 0,
            v.head() == head,
            v.capacity() == 1,
    {
        Self::with_capacity(1, head)
    }

    /// An empty vector with room for `capacity` elements. A capacity of zero
    /// is not allowed, nor one for which `layout` finds no block of memory.
    pub fn with_capacity(capacity: usize, head: H) -> (v: Self)
        requires
            capacity > 0,
            Self::spec_layout(capacity as nat) is Some,
        ensures
            v.wf(),
            v@ == Seq::<T>::empty(),
            v.len() == 0,
            v.head() == head,
            v.capacity() == capacity,
    {
        let items: Vec<T> = Vec::with_capacity(capacity);
        let address: usize = buffer_address(&items);
        HeaderVec { header: HeaderVecHeader { head, capacity, len: 0 }, items, address }
    }

    /// The number of elements, read through an exclusive borrow.
    pub fn len_exact(&mut self) -> (len: usize)
        ensures
            len == old(self).len(),
            *final(self) == *old(self),
    {
        self.header.len
    }

    /// The number of elements.
    #[verifier::when_used_as_spec(spec_len)]
    pub fn len(&self) -> (len: usize)
        ensures
            len == self.len(),
    {
        self.header.len
    }

    /// The number of elements. A borrow of the vector rules out an append
    /// in the meantime, so this is the same number as `len`.
    pub fn len_strict(&self) -> (len: usize)
        ensures
            len == self.len(),
    {
        self.header.len
    }

    /// Whether the vector holds no element, read through an exclusive borrow.
    pub fn is_empty_exact(&mut self) -> (empty: bool)
        ensures
            empty == (old(self).len() == 0),
            *final(self) == *old(self),
    {
        self.len_exact() == 0
    }

    /// Whether the vector holds no element.
    pub fn is_empty(&self) -> (empty: bool)
        ensures
            empty == (self.len() == 0),
    {
        self.len() == 0
    }

    /// Whether the vector holds no element, by `len_strict`.
    pub fn is_empty_strict(&self) -> (empty: bool)
        ensures
            empty == (self.len() == 0),
    {
        self.len_strict() == 0
    }

    /// The number of elements that the vector has room for.
    #[verifier::when_used_as_spec(spec_capacity)]
    pub fn capacity(&self) -> (capacity: usize)
        ensures
            capacity == self.capacity(),
    {
        self.header.capacity
    }

    /// The number of elements that can still be appended before the vector
    /// has to grow.
    pub fn spare_capacity(&self) -> (spare: usize)
        requires
            self.wf(),
        ensures
            spare == self.capacity() - self.len(),
    {
        self.header.capacity - self.len_strict()
    }

    /// The elements, in order.
    pub fn as_slice(&self) -> (slice: &[T])
        ensures
            slice@ == self@,
    {
        self.items.as_slice()
    }

    /// Whether the vector holds no element, by `len_strict`.
    pub fn is_empty_atomic_acquire(&self) -> (empty: bool)
        ensures
            empty == (self.len() == 0),
    {
        self.len_strict() == 0
    }

    /// The elements, in order: every one that an append has added before
    /// this borrow began.
    pub fn as_slice_atomic_acquire(&self) -> (slice: &[T])
        ensures
            slice@ == self@,
    {
        self.items.as_slice()
    }

    /// The elements, in order, open to change one by one; their number stays.
    pub fn as_mut_slice(&mut self) -> (slice: &mut [T])
        ensures
            slice@ == old(self)@,
            final(self)@ == final(slice)@,
            final(self).head() == old(self).head(),
            final(self).len() == old(self).len(),
            final(self).capacity() == old(self).capacity(),
            final(self).ptr() == old(self).ptr(),
    {
        self.items.as_mut_slice()
    }

    /// The address of the buffer, by which to tell this vector from others.
    #[verifier::when_used_as_spec(spec_ptr)]
    pub fn ptr(&self) -> (address: usize)
        ensures
            address == self.ptr(),
    {
        self.address
    }

    /// Whether `ptr` is the address of this vector's buffer.
    pub fn is(&self, ptr: usize) -> (same: bool)
        ensures
            same == (self.ptr() == ptr),
    {
        self.address == ptr
    }

    /// A handle that names this vector and owns nothing. It goes stale
    /// whenever a call on the vector reports a previous address.
    pub fn weak(&self) -> (weak: HeaderVecWeak<H, T>)
        ensures
            weak.ptr() == self.ptr(),
    {
        HeaderVecWeak::at(self.address)
    }

    /// Takes the address that `weak` names for this vector's own; header,
    /// elements and capacity stay. The caller picks a handle of this vector.
    pub fn update(&mut self, weak: HeaderVecWeak<H, T>)
        ensures
            final(self).ptr() == weak.ptr(),
            final(self)@ == old(self)@,
            final(self).head() == old(self).head(),
            final(self).len() == old(self).len(),
            final(self).capacity() == old(self).capacity(),
            final(self).wf() == old(self).wf(),
    {
        self.address = weak.ptr();
    }

    /// The elements start behind the header record, at the first whole
    /// element slot that does, which is a place where an element may stand.
    pub proof fn lemma_offset_is_first_slot_behind_header()
        requires
            size_of::<T>() > 0,
        ensures
            Self::spec_offset() * size_of::<T>() >= size_of::<HeaderVecHeader<H>>(),
            forall|k: nat|
                #[trigger] (k * size_of::<T>()) >= size_of::<HeaderVecHeader<H>>() ==> k
                    >= Self::spec_offset(),
            (Self::spec_offset() * size_of::<T>()) % align_of::<T>() == 0,
    {
        broadcast use {vstd::layout::align_properties, vstd::layout::align_nonzero};

        lemma_div_ceil_is_least_cover(size_of::<HeaderVecHeader<H>>(), size_of::<T>());
        let t = size_of::<T>() as int;
        let a = align_of::<T>() as int;
        let o = Self::spec_offset() as int;
        let m = t / a;
        assert(t == m * a) by (nonlinear_arith)
            requires
                a > 0,
                t % a == 0,
                m == t / a,
        ;
        assert(o * t == (o * m) * a) by (nonlinear_arith)
            requires
                t == m * a,
        ;
        vstd::arithmetic::div_mod::lemma_mod_multiples_basic(o * m, a);
    }

    /// A capacity that has a block of memory stays within `isize::MAX`
    /// bytes of elements.
    pub proof fn lemma_layout_bounds(capacity: nat)
        requires
            Self::spec_layout(capacity) is Some,
        ensures
            size_of::<T>() > 0,
            capacity <= capacity * size_of::<T>() <= isize::MAX,
    {
        let t = size_of::<T>() as int;
        let o = Self::spec_offset() as int;
        let c = capacity as int;
        assert(c <= c * t <= (o + c) * t) by (nonlinear_arith)
            requires
                t > 0,
                o >= 0,
                c >= 0,
        ;
    }

    /// Where a capacity has a block of memory, every smaller one has too.
    pub proof fn lemma_layout_monotonic(smaller: nat, larger: nat)
        requires
            smaller <= larger,
            Self::spec_layout(larger) is Some,
        ensures
            Self::spec_layout(smaller) is Some,
    {
        let t = size_of::<T>() as int;
        let o = Self::spec_offset() as int;
        assert((o + smaller) * t <= (o + larger) * t) by (nonlinear_arith)
            requires
                t > 0,
                o >= 0,
                0 <= smaller <= larger,
        ;
    }

    /// Changes the capacity to hold `requested_capacity` elements: exactly
    /// that many where `exact` is set, else by the amortized growth policy.
    /// Growing generously is the only resize that is not exact.
    fn resize_cold(&mut self, requested_capacity: usize, exact: bool) -> (previous: Option<usize>)
        requires
            old(self).wf(),
            old(self).len() <= requested_capacity,
            requested_capacity > 0,
            exact || requested_capacity > old(self).capacity(),
            Self::spec_layout(
                resized_capacity(old(self).capacity() as nat, requested_capacity as nat, exact),
            ) is Some,
        ensures
            final(self).wf(),
            final(self).capacity() == resized_capacity(
                old(self).capacity() as nat,
                requested_capacity as nat,
                exact,
            ),
            final(self)@ == old(self)@,
            final(self).head() == old(self).head(),
            previous == previous_address(old(self).ptr(), final(self).ptr()),
    {
        let old_capacity: usize = self.capacity();
        let ghost target = resized_capacity(old_capacity as nat, requested_capacity as nat, exact);
        proof {
            Self::lemma_layout_bounds(target);
            Self::lemma_layout_bounds(old_capacity as nat);
        }
        let new_capacity: usize = if requested_capacity > old_capacity && !exact {
            proof {
                lemma_amortized_capacity(old_capacity as nat, requested_capacity as nat);
            }
            if requested_capacity <= old_capacity * 2 {
                // doubling is enough
                old_capacity * 2
            } else {
                // more than twice as much is asked for: take whole multiples
                // of the old capacity, which leaves room without doubling
                // what a bulk request needs
                div_ceil_usize(requested_capacity, old_capacity) * old_capacity
            }
        } else {
            requested_capacity
        };
        if new_capacity > old_capacity {
            let len: usize = self.items.len();
            reserve_exact_items(&mut self.items, new_capacity - len);
        } else {
            shrink_items_to(&mut self.items, new_capacity);
        }
        let address: usize = buffer_address(&self.items);
        let previous: Option<usize> = if address != self.address {
            // hand out the old address, so that the caller can bring
            // every copy of it up to date
            Some(self.address)
        } else {
            None
        };
        self.address = address;
        self.header.capacity = new_capacity;
        previous
    }

    /// Makes room for at least `additional` more elements. Where there is
    /// room already nothing changes; else the capacity grows by the amortized
    /// policy, which must leave it with a block of memory.
    pub fn reserve(&mut self, additional: usize) -> (previous: Option<usize>)
        requires
            old(self).wf(),
            old(self).capacity() - old(self).len() >= additional || Self::spec_layout(
                resized_capacity(
                    old(self).capacity() as nat,
                    (old(self).len() + additional) as nat,
                    false,
                ),
            ) is Some,
        ensures
            final(self).wf(),
            final(self)@ == old(self)@,
            final(self).head() == old(self).head(),
            final(self).capacity() == (if old(self).capacity() - old(self).len() >= additional {
                old(self).capacity() as nat
            } else {
                resized_capacity(
                    old(self).capacity() as nat,
                    (old(self).len() + additional) as nat,
                    false,
                )
            }),
            final(self).capacity() >= old(self).capacity(),
            final(self).capacity() >= old(self).len() + additional,
            final(self).len() == old(self).len(),
            old(self).capacity() - old(self).len() >= additional ==> final(self).ptr() == old(self).ptr(),
            previous == previous_address(old(self).ptr(), final(self).ptr()),
    {
        if self.spare_capacity() < additional {
            let len: usize = self.len_exact();
            proof {
                let requested = (len + additional) as nat;
                lemma_amortized_capacity(self.capacity() as nat, requested);
                Self::lemma_layout_bounds(resized_capacity(self.capacity() as nat, requested, false));
            }
            self.resize_cold(len + additional, false)
        } else {
            None
        }
    }

    /// Makes room for `additional` more elements. Where there is room
    /// already nothing changes; else the capacity becomes exactly the length
    /// and `additional`, which must have a block of memory.
    pub fn reserve_exact(&mut self, additional: usize) -> (previous: Option<usize>)
        requires
            old(self).wf(),
            old(self).capacity() - old(self).len() >= additional || Self::spec_layout(
                (old(self).len() + additional) as nat,
            ) is Some,
        ensures
            final(self).wf(),
            final(self)@ == old(self)@,
            final(self).head() == old(self).head(),
            final(self).capacity() == (if old(self).capacity() - old(self).len() >= additional {
                old(self).capacity() as nat
            } else {
                (old(self).len() + additional) as nat
            }),
            final(self).capacity() >= old(self).capacity(),
            final(self).capacity() >= old(self).len() + additional,
            final(self).len() == old(self).len(),
            old(self).capacity() - old(self).len() >= additional ==> final(self).ptr() == old(self).ptr(),
            previous == previous_address(old(self).ptr(), final(self).ptr()),
    {
        if self.spare_capacity() < additional {
            let len: usize = self.len_exact();
            proof {
                Self::lemma_layout_bounds((len + additional) as nat);
            }
            self.resize_cold(len + additional, true)
        } else {
            None
        }
    }

    /// Sets the capacity to the largest of the length, `min_capacity` and
    /// one: a vector always has room for an element. A `min_capacity` beyond
    /// the capacity makes the vector grow, and must have a block of memory.
    pub fn shrink_to(&mut self, min_capacity: usize) -> (previous: Option<usize>)
        requires
            old(self).wf(),
            min_capacity > old(self).capacity() ==> Self::spec_layout(min_capacity as nat) is Some,
        ensures
            final(self).wf(),
            final(self)@ == old(self)@,
            final(self).head() == old(self).head(),
            final(self).len() == old(self).len(),
            final(self).capacity() == shrunk_capacity(
                old(self).len() as nat,
                min_capacity as nat,
            ),
            final(self).capacity() >= final(self).len(),
            previous == previous_address(old(self).ptr(), final(self).ptr()),
    {
        let len: usize = self.len_exact();
        let wanted: usize = if len >= min_capacity {
            len
        } else {
            min_capacity
        };
        let requested_capacity: usize = if wanted == 0 {
            1
        } else {
            wanted
        };
        proof {
            if requested_capacity <= self.capacity() {
                Self::lemma_layout_monotonic(requested_capacity as nat, self.capacity() as nat);
            }
        }
        self.resize_cold(requested_capacity, true)
    }

    /// Sets the capacity to the length, and to one where the vector is
    /// empty.
    pub fn shrink_to_fit(&mut self) -> (previous: Option<usize>)
        requires
            old(self).wf(),
        ensures
            final(self).wf(),
            final(self)@ == old(self)@,
            final(self).head() == old(self).head(),
            final(self).len() == old(self).len(),
            final(self).capacity() == shrunk_capacity(
                old(self).len() as nat,
                old(self).len() as nat,
            ),
            final(self).capacity() >= final(self).len(),
            previous == previous_address(old(self).ptr(), final(self).ptr()),
    {
        let len: usize = self.len_exact();
        self.shrink_to(len)
    }

    /// Appends `item`. A full vector first doubles its capacity, which must
    /// then have a block of memory; only such growth can move the buffer, and
    /// the address from before is returned where it has.
    pub fn push(&mut self, item: T) -> (previous: Option<usize>)
        requires
            old(self).wf(),
            old(self).len() < old(self).capacity() || Self::spec_layout(
                2 * old(self).capacity() as nat,
            ) is Some,
        ensures
            final(self).wf(),
            final(self)@ == old(self)@.push(item),
            final(self).head() == old(self).head(),
            final(self).capacity() == (if old(self).len() < old(self).capacity() {
                old(self).capacity() as nat
            } else {
                2 * old(self).capacity() as nat
            }),
            final(self).capacity() >= old(self).capacity(),
            final(self).len() == old(self).len() + 1,
            final(self).len() <= final(self).capacity(),
            old(self).len() < old(self).capacity() ==> final(self).ptr() == old(self).ptr(),
            previous == previous_address(old(self).ptr(), final(self).ptr()),
            previous is Some <==> final(self).ptr() != old(self).ptr(),
            previous is Some ==> previous == Some(old(self).ptr()),
    {
        let old_len: usize = self.len_exact();
        let previous: Option<usize> = self.reserve(1);
        let new_len: usize = old_len + 1;
        self.items.push(item);
        self.header.len = new_len;
        previous
    }

    /// Appends `item` where there is room for it and hands it back where
    /// there is none. The vector never grows here, so its buffer stays where
    /// it is.
    pub fn push_atomic(&mut self, item: T) -> (outcome: Result<(), T>)
        requires
            old(self).wf(),
        ensures
            final(self).wf(),
            final(self).head() == old(self).head(),
            final(self).capacity() == old(self).capacity(),
            final(self).len() <= final(self).capacity(),
            final(self).ptr() == old(self).ptr(),
            old(self).len() < old(self).capacity() ==> outcome == Ok::<(), T>(()) && final(self)@
                == old(self)@.push(item),
            old(self).len() >= old(self).capacity() ==> outcome == Err::<(), T>(item) && final(self)@ == old(self)@,
    {
        let len: usize = self.len();
        if len < self.capacity() {
            self.items.push(item);
            self.header.len = len + 1;
            Ok(())
        } else {
            Err(item)
        }
    }

    /// Keeps the elements for which `f` returns `true`, in their order, and
    /// lets go of the others. `f` is asked once of each element, from the
    /// first to the last. Nothing is allocated and the capacity stays.
    pub fn retain<F: FnMut(&T) -> bool>(&mut self, mut f: F)
        requires
            old(self).wf(),
            forall|i: int| 0 <= i < old(self)@.len() ==> call_requires(f, (&old(self)@[i],)),
        ensures
            final(self).wf(),
            final(self).head() == old(self).head(),
            final(self).capacity() == old(self).capacity(),
            final(self).len() <= old(self).len(),
            final(self).ptr() == old(self).ptr(),
            exists|keep: Seq<bool>|
                {
                    &&& keep.len() == old(self)@.len()
                    &&& forall|i: int|
                        0 <= i < keep.len() ==> call_ensures(f, (&old(self)@[i],), #[trigger] keep[i])
                    &&& final(self)@ == retained(old(self)@, keep)
                },
    {
        // The length, and next free place, of the run of retained elements
        // at the front of the vector.
        let ghost asked = f;
        let mut head: usize = 0;
        let len_before: usize = self.len_exact();
        let ghost mut keep: Seq<bool> = Seq::empty();
        let mut index: usize = 0;
        while index < len_before
            invariant
                self.items@.len() == len_before,
                len_before == old(self)@.len(),
                head <= index <= len_before,
                self.header == old(self).header,
                self.address == old(self).address,
                keep.len() == index,
                f == asked,
                forall|i: int| 0 <= i < old(self)@.len() ==> call_requires(f, (&old(self)@[i],)),
                forall|i: int|
                    0 <= i < index ==> call_ensures(f, (&old(self)@[i],), #[trigger] keep[i]),
                forall|i: int| index <= i < len_before ==> self.items@[i] == old(self)@[i],
                self.items@.take(head as int) == retained(old(self)@.take(index as int), keep),
            decreases len_before - index,
        {
            let kept: bool = f(&self.items[index]);
            proof {
                let seen = old(self)@.take(index as int);
                lemma_retained_step(seen, keep, old(self)@[index as int], kept);
                assert(seen.push(old(self)@[index as int]) =~= old(self)@.take(index + 1));
                keep = keep.push(kept);
            }
            if kept {
                // Where the two places differ, the element has to move down
                // to join the retained ones.
                if head != index {
                    swap_items(&mut self.items, head, index);
                }
                assert(self.items@.take(head + 1) =~= retained(
                    old(self)@.take(index + 1),
                    keep,
                ));
                head += 1;
            }
            index += 1;
        }
        assert(old(self)@.take(index as int) =~= old(self)@);
        assert(self.items@.take(head as int) =~= self.items@.subrange(0, head as int));
        // Everything behind the retained run goes.
        self.items.truncate(head);
        self.header.len = head;
    }
}

/// The vector stands for its header: a shared borrow of the one reads the
/// other.
impl<H, T> Deref for HeaderVec<H, T> {
    type Target = H;

    fn deref(&self) -> (head: &H)
        ensures
            *head == self.head(),
    {
        &self.header.head
    }
}

/// An exclusive borrow of the vector opens the header to change, and only
/// the header.
impl<H, T> DerefMut for HeaderVec<H, T> {
    fn deref_mut(&mut self) -> (head: &mut H)
        ensures
            *head == old(self).head(),
            final(self).head() == *final(head),
            final(self)@ == old(self)@,
            final(self).len() == old(self).len(),
            final(self).capacity() == old(self).capacity(),
            final(self).ptr() == old(self).ptr(),
    {
        &mut self.header.head
    }
}

/// An index is in order for the vector where it is for its elements taken
/// as a slice.
impl<H, T, I: SliceIndex<[T]>> vstd::std_specs::core::IndexSpecImpl<I> for HeaderVec<H, T> {
    open spec fn index_req(&self, index: &I) -> bool {
        forall|s: &[T]| #[trigger] s@ == self@ ==> index.index_req(s)
    }
}

/// Indexing the vector indexes its elements.
impl<H, T, I: SliceIndex<[T]>> Index<I> for HeaderVec<H, T> {
    type Output = I::Output;

    fn index(&self, index: I) -> (output: &I::Output)
        ensures
            exists|s: &[T]|
                #[trigger] s@ == self@ && call_ensures(
                    <I as SliceIndex<[T]>>::index,
                    (index, s),
                    output,
                ),
    {
        self.as_slice().index(index)
    }
}

/// A copy with a buffer of its own, just large enough for the elements (and
/// for one where there are none). Header and elements are cloned one by one,
/// in order.
impl<H: Clone, T: Clone> Clone for HeaderVec<H, T> {
    fn clone(&self) -> (copy: Self)
        ensures
            cloned(self.head(), copy.head()),
            copy@.len() == self@.len(),
            forall|i: int| 0 <= i < self@.len() ==> cloned(self@[i], #[trigger] copy@[i]),
            copy.len() == self@.len(),
            copy.capacity() == (if self@.len() == 0 {
                1
            } else {
                self@.len()
            }),
            self.wf() ==> copy.wf(),
    {
        let len: usize = self.items.len();
        let capacity: usize = if len == 0 {
            1
        } else {
            len
        };
        let head: H = self.header.head.clone();
        let mut items: Vec<T> = Vec::with_capacity(capacity);
        let mut index: usize = 0;
        while index < len
            invariant
                len == self.items@.len(),
                index <= len,
                items@.len() == index,
                forall|i: int| 0 <= i < index ==> cloned(self.items@[i], #[trigger] items@[i]),
            decreases len - index,
        {
            items.push(self.items[index].clone());
            index += 1;
        }
        proof {
            if self.wf() {
                Self::lemma_layout_monotonic(capacity as nat, self.capacity() as nat);
            }
        }
        let address: usize = buffer_address(&items);
        HeaderVec { header: HeaderVecHeader { head, capacity, len }, items, address }
    }
}

} // verus!
