//! Facts about single bits of 64-bit masks, used by the bitboard proofs.

use vstd::prelude::*;

verus! {

/// Bit `i` of the mask `m` is set.
pub open spec fn has_bit(m: u64, i: u64) -> bool {
    m & (1u64 << i) != 0
}

pub proof fn lemma_bit_or(x: u64, y: u64, i: u64)
    requires
        i < 64,
    ensures
        has_bit(x | y, i) == (has_bit(x, i) || has_bit(y, i)),
{
    assert((x | y) & (1u64 << i) != 0 <==> (x & (1u64 << i) != 0 || y & (1u64 << i) != 0))
        by (bit_vector)
        requires
            i < 64,
    ;
}

pub proof fn lemma_bit_and(x: u64, y: u64, i: u64)
    requires
        i < 64,
    ensures
        has_bit(x & y, i) == (has_bit(x, i) && has_bit(y, i)),
{
    assert((x & y) & (1u64 << i) != 0 <==> (x & (1u64 << i) != 0 && y & (1u64 << i) != 0))
        by (bit_vector)
        requires
            i < 64,
    ;
}

pub proof fn lemma_bit_zero(i: u64)
    requires
        i < 64,
    ensures
        !has_bit(0, i),
{
    assert(0u64 & (1u64 << i) == 0) by (bit_vector);
}

/// Clearing bit `i` and then setting it to `c` changes bit `i` alone.
pub proof fn lemma_bit_update(m: u64, c: bool, i: u64, j: u64)
    requires
        i < 64,
        j < 64,
    ensures
        has_bit((m & !(1u64 << i)) | (if c { 1u64 << i } else { 0u64 }), j) == (if j == i {
            c
        } else {
            has_bit(m, j)
        }),
{
    assert(((m & !(1u64 << i)) | (if c { 1u64 << i } else { 0u64 })) & (1u64 << j) != 0 <==> (
    if j == i {
        c
    } else {
        m & (1u64 << j) != 0
    })) by (bit_vector)
        requires
            i < 64,
            j < 64,
    ;
}

/// The shift-and-mask reading of a bit agrees with `has_bit`.
pub proof fn lemma_bit_shift(m: u64, i: u64)
    requires
        i < 64,
    ensures
        ((m >> i) & 1u64 == 1u64) == has_bit(m, i),
        ((m >> i) & 1u64 == 0u64) == !has_bit(m, i),
{
    assert(((m >> i) & 1u64 == 1u64) == (m & (1u64 << i) != 0)) by (bit_vector)
        requires
            i < 64,
    ;
    assert(((m >> i) & 1u64 == 0u64) == (m & (1u64 << i) == 0)) by (bit_vector)
        requires
            i < 64,
    ;
}

} // verus!
