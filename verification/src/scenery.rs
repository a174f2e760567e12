//! Deterministic scatter values that place and vary the scenery, so that a
//! course looks the same every time it is built.
use vstd::prelude::*;

verus! {

/// The scatter bits of `n`: a multiply-add step, then a shift chosen by the
/// top four bits mixed back in and multiplied, then the top ten bits folded
/// into the low ones; all arithmetic wraps at 32 bits.
pub open spec fn scatter_spec(n: u32) -> u32 {
    let x = n.wrapping_mul(747796405).wrapping_add(2891336453);
    let y = ((x >> ((x >> 28u32) + 4u32)) ^ x).wrapping_mul(277803737);
    (y >> 22u32) ^ y
}

/// The scatter bits of a seed; the caller scales them to `[0, 1]`.
pub fn scatter_bits(n: u32) -> (r: u32)
    ensures
        r == scatter_spec(n),
{
    let x = n.wrapping_mul(747796405).wrapping_add(2891336453);
    let top = x >> 28u32;
    assert(top < 16) by (bit_vector)
        requires
            top == x >> 28u32,
    ;
    let y = ((x >> (top + 4)) ^ x).wrapping_mul(277803737);
    (y >> 22u32) ^ y
}

} // verus!
