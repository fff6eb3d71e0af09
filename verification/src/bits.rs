//! Single-bit operations on the `u64` words that back the simulated
//! hardware state, together with the lemmas the backend's contracts rest on.

use vstd::prelude::*;

verus! {

/// Whether bit `i` of `w` is set.
pub open spec fn spec_bit(w: u64, i: usize) -> bool {
    w & (1u64 << i) != 0
}

/// `w` with bit `i` forced to `v` and every other bit unchanged.
pub open spec fn spec_set_bit(w: u64, i: usize, v: bool) -> u64 {
    if v {
        w | (1u64 << i)
    } else {
        w & !(1u64 << i)
    }
}

/// Reads bit `i` of `w`.
pub fn get_bit(w: u64, i: usize) -> (r: bool)
    requires
        i < 64,
    ensures
        r == spec_bit(w, i),
{
    w & (1u64 << i) != 0
}

/// Returns `w` with bit `i` set to `v`.
pub fn set_bit(w: u64, i: usize, v: bool) -> (r: u64)
    requires
        i < 64,
    ensures
        r == spec_set_bit(w, i, v),
{
    if v {
        w | (1u64 << i)
    } else {
        w & !(1u64 << i)
    }
}

/// Setting bit `i` changes exactly bit `i`: reading back bit `j` gives the
/// new value at `i` and the old value everywhere else.
pub proof fn lemma_set_bit_effect(w: u64, i: usize, j: usize, v: bool)
    requires
        i < 64,
        j < 64,
    ensures
        spec_bit(spec_set_bit(w, i, v), j) == if i == j {
            v
        } else {
            spec_bit(w, j)
        },
{
    assert(spec_bit(spec_set_bit(w, i, v), j) == if i == j {
        v
    } else {
        spec_bit(w, j)
    }) by (bit_vector)
        requires
            i < 64,
            j < 64,
    ;
}

/// Bit `j` of `a & b` is the conjunction of the two operands' bits `j`.
pub proof fn lemma_and_bit(a: u64, b: u64, j: usize)
    requires
        j < 64,
    ensures
        spec_bit(a & b, j) == (spec_bit(a, j) && spec_bit(b, j)),
{
    assert(spec_bit(a & b, j) == (spec_bit(a, j) && spec_bit(b, j))) by (bit_vector)
        requires
            j < 64,
    ;
}

/// Bit `j` of `a | b` is the disjunction of the two operands' bits `j`.
pub proof fn lemma_or_bit(a: u64, b: u64, j: usize)
    requires
        j < 64,
    ensures
        spec_bit(a | b, j) == (spec_bit(a, j) || spec_bit(b, j)),
{
    assert(spec_bit(a | b, j) == (spec_bit(a, j) || spec_bit(b, j))) by (bit_vector)
        requires
            j < 64,
    ;
}

/// Bit `j` of `a & !b` keeps bit `j` of `a` exactly where `b` is clear.
pub proof fn lemma_and_not_bit(a: u64, b: u64, j: usize)
    requires
        j < 64,
    ensures
        spec_bit(a & !b, j) == (spec_bit(a, j) && !spec_bit(b, j)),
{
    assert(spec_bit(a & !b, j) == (spec_bit(a, j) && !spec_bit(b, j))) by (bit_vector)
        requires
            j < 64,
    ;
}

/// The single-bit mask `1 << i` has exactly bit `i` set.
pub proof fn lemma_single_bit(i: usize, j: usize)
    requires
        i < 64,
        j < 64,
    ensures
        spec_bit(1u64 << i, j) == (i == j),
{
    assert(spec_bit(1u64 << i, j) == (i == j)) by (bit_vector)
        requires
            i < 64,
            j < 64,
    ;
}

} // verus!
