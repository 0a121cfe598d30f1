//! Facts about single bits of a 64-bit board.

use vstd::prelude::*;

verus! {

/// Whether bit `i` of `b` is set.
pub open spec fn has_bit(b: u64, i: u64) -> bool {
    (b >> i) & 1 == 1
}

/// Number of set bits.
pub open spec fn spec_count_ones(x: u64) -> nat
    decreases x,
{
    if x == 0 {
        0
    } else {
        ((x & 1) as nat) + spec_count_ones(x / 2)
    }
}

/// `u64::count_ones` of the standard library returns the number of bits
/// that are set in its argument; the contract says that and nothing else.
pub assume_specification[ u64::count_ones ](x: u64) -> (r: u32)
    ensures
        r == spec_count_ones(x),
;

/// Flipping bit `j` changes bit `j` and no other.
pub proof fn lemma_toggle_bit(b: u64, j: u64, i: u64)
    by (bit_vector)
    requires
        i < 64,
        j < 64,
    ensures
        has_bit(b ^ (1u64 << j), i) == (if i == j {
            !has_bit(b, i)
        } else {
            has_bit(b, i)
        }),
{
}

/// The empty board has no bit set.
pub proof fn lemma_zero_has_no_bit(i: u64)
    by (bit_vector)
    requires
        i < 64,
    ensures
        !has_bit(0u64, i),
{
}

/// Clearing the lowest set bit makes a board smaller and adds no bit.
pub proof fn lemma_clear_lowest(x: u64)
    by (bit_vector)
    requires
        x != 0,
    ensures
        x & ((x - 1) as u64) < x,
        forall|i: u64| i < 64 && has_bit(x & ((x - 1) as u64), i) ==> has_bit(x, i),
{
}

/// A board has at most 64 bits set.
pub proof fn lemma_count_ones_bound(x: u64)
    ensures
        spec_count_ones(x) <= 64,
{
    vstd::arithmetic::power2::lemma2_to64_rest();
    lemma_count_ones_below(x, 64);
}

proof fn lemma_count_ones_below(x: u64, k: nat)
    requires
        k <= 64,
        (x as nat) < vstd::arithmetic::power2::pow2(k),
    ensures
        spec_count_ones(x) <= k,
    decreases k,
{
    if x != 0 {
        assert(x & 1 <= 1) by (bit_vector);
        vstd::arithmetic::power2::lemma2_to64();
        assert(k > 0);
        vstd::arithmetic::power2::lemma_pow2_unfold(k);
        lemma_count_ones_below(x / 2, (k - 1) as nat);
    }
}

/// Removes the lowest set bit.
pub fn clear_lowest(x: u64) -> (r: u64)
    requires
        x != 0,
    ensures
        r < x,
        r == x & ((x - 1) as u64),
        forall|i: u64| i < 64 && has_bit(r, i) ==> has_bit(x, i),
{
    proof {
        lemma_clear_lowest(x);
    }
    x & (x - 1)
}

/// Number of set bits, as a score term.
pub fn count(x: u64) -> (r: i32)
    ensures
        r == spec_count_ones(x),
        0 <= r <= 64,
{
    proof {
        lemma_count_ones_bound(x);
    }
    x.count_ones() as i32
}

} // verus!
