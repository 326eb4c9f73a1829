//! Arithmetic on sizes: how many element slots a header occupies, how a
//! capacity grows, and what block of memory a given capacity asks for.

use vstd::prelude::*;

verus! {

/// Size and alignment, in bytes, of one block of memory.
#[derive(Clone, Copy, Debug, PartialEq, Eq, Structural)]
pub struct MemLayout {
    pub size: usize,
    pub align: usize,
}

/// The number of whole units of size `unit` needed to cover `amount`:
/// `amount / unit`, rounded up.
pub open spec fn div_ceil(amount: nat, unit: nat) -> nat
    recommends
        unit > 0,
{
    ((amount + unit - 1) / (unit as int)) as nat
}

/// `div_ceil(amount, unit)` units cover `amount`, and no smaller number of
/// units does.
pub proof fn lemma_div_ceil_is_least_cover(amount: nat, unit: nat)
    requires
        unit > 0,
    ensures
        div_ceil(amount, unit) * unit >= amount,
        forall|k: nat| #[trigger] (k * unit) >= amount ==> k >= div_ceil(amount, unit),
{
    let q = (amount + unit - 1) / (unit as int);
    let r = (amount + unit - 1) % (unit as int);
    assert(amount + unit - 1 == q * unit + r && 0 <= r < unit && q >= 0) by (nonlinear_arith)
        requires
            unit > 0,
            amount >= 0,
            q == (amount + unit - 1) / (unit as int),
            r == (amount + unit - 1) % (unit as int),
    ;
    assert forall|k: nat| #[trigger] (k * unit) >= amount implies k >= q by {
        if k < q {
            assert(k * unit <= (q - 1) * unit) by (nonlinear_arith)
                requires
                    k <= q - 1,
                    unit > 0,
            ;
            assert((q - 1) * unit == q * unit - unit) by (nonlinear_arith);
        }
    }
}

/// Computes `div_ceil` without an intermediate sum that could overflow.
pub fn div_ceil_usize(amount: usize, unit: usize) -> (r: usize)
    requires
        unit > 0,
    ensures
        r == div_ceil(amount as nat, unit as nat),
{
    let q: usize = amount / unit;
    let rem: usize = amount % unit;
    proof {
        let a = amount as int;
        let u = unit as int;
        assert(a == q * u + rem && 0 <= rem < u) by (nonlinear_arith)
            requires
                u > 0,
                a >= 0,
                q == a / u,
                rem == a % u,
        ;
        if rem == 0 {
            assert((q * u + (u - 1)) / u == q) by (nonlinear_arith)
                requires
                    u > 0,
                    q >= 0,
            ;
        } else {
            assert(((q + 1) * u + (rem - 1)) / u == q + 1) by (nonlinear_arith)
                requires
                    u > 0,
                    q >= 0,
                    0 <= rem - 1 < u,
            ;
            assert((q + 1) * u + (rem - 1) == a + u - 1) by (nonlinear_arith)
                requires
                    a == q * u + rem,
            ;
            assert(q + 1 <= a) by (nonlinear_arith)
                requires
                    a == q * u + rem,
                    rem >= 1,
                    u >= 1,
                    q >= 0,
            ;
        }
    }
    if rem == 0 {
        q
    } else {
        q + 1
    }
}

/// The capacity that a vector of capacity `old_capacity` grows to when
/// `requested` elements must fit and room to spare is welcome: twice the old
/// capacity where that is enough, else the least multiple of the old capacity
/// that holds `requested` elements.
pub open spec fn amortized_capacity(old_capacity: nat, requested: nat) -> nat
    recommends
        0 < old_capacity < requested,
{
    if requested <= 2 * old_capacity {
        2 * old_capacity
    } else {
        div_ceil(requested, old_capacity) * old_capacity
    }
}

/// The capacity after a resize to `requested` elements: exactly `requested`
/// when `exact` is set or nothing has to grow, else the amortized capacity.
pub open spec fn resized_capacity(old_capacity: nat, requested: nat, exact: bool) -> nat {
    if requested > old_capacity && !exact {
        amortized_capacity(old_capacity, requested)
    } else {
        requested
    }
}

/// The capacity after a shrink of a vector of `len` elements to
/// `min_capacity`: the largest of the two and of one, since a vector always
/// has room for an element.
pub open spec fn shrunk_capacity(len: nat, min_capacity: nat) -> nat {
    if len >= min_capacity && len >= 1 {
        len
    } else if min_capacity >= 1 {
        min_capacity
    } else {
        1
    }
}

/// A shrink never goes below the length, below what was asked for, or below
/// one, and takes no more than the largest of the three.
pub proof fn lemma_shrunk_capacity(len: nat, min_capacity: nat)
    ensures
        shrunk_capacity(len, min_capacity) >= len,
        shrunk_capacity(len, min_capacity) >= min_capacity,
        shrunk_capacity(len, min_capacity) >= 1,
        shrunk_capacity(len, min_capacity) == len || shrunk_capacity(len, min_capacity)
            == min_capacity || shrunk_capacity(len, min_capacity) == 1,
{
}

/// The amortized capacity holds the requested elements, is a whole multiple
/// of the old capacity and at least twice as large, and beyond twice the old
/// capacity no smaller multiple would do.
pub proof fn lemma_amortized_capacity(old_capacity: nat, requested: nat)
    requires
        0 < old_capacity < requested,
    ensures
        amortized_capacity(old_capacity, requested) >= requested,
        amortized_capacity(old_capacity, requested) >= 2 * old_capacity,
        amortized_capacity(old_capacity, requested) % old_capacity == 0,
        requested > 2 * old_capacity ==> amortized_capacity(old_capacity, requested) - old_capacity
            < requested,
{
    let c = old_capacity as int;
    if requested <= 2 * old_capacity {
        assert((2 * c) % c == 0) by (nonlinear_arith)
            requires
                c > 0,
        ;
    } else {
        let k = div_ceil(requested, old_capacity);
        lemma_div_ceil_is_least_cover(requested, old_capacity);
        assert((k * c) % c == 0) by (nonlinear_arith)
            requires
                c > 0,
        ;
        assert(k >= 1 && k * c - c < requested) by {
            if k == 0 {
                assert(k * c == 0) by (nonlinear_arith)
                    requires
                        k == 0,
                ;
            } else {
                let j = (k - 1) as nat;
                assert(j * old_capacity == k * c - c) by (nonlinear_arith)
                    requires
                        j == k - 1,
                        c == old_capacity,
                ;
                if j * old_capacity >= requested {
                    assert(j >= k);
                }
            }
        }
        assert(k * c >= 2 * c);
    }
}

} // verus!
