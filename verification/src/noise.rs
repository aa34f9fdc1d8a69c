//! Fixed pseudo-random numbers, for visual variety that must stay the same
//! from frame to frame without being stored.

use vstd::prelude::*;

verus! {

/// The bits of `index` spread by a multiplicative hash, of which the top
/// 24 make a fixed pseudo-random fraction.
pub open spec fn hashed(index: u32) -> u32 {
    let first = index.wrapping_mul(0x9e37_79b9u32);
    let second = (first ^ (first >> 16u32)).wrapping_mul(0x85eb_ca6bu32);
    second ^ (second >> 13u32)
}

/// The 24 bits that make the fixed pseudo-random fraction for `index`: the
/// fraction is these bits over 2 to the 24th, in `0..1`.
pub fn noise_bits(index: u32) -> (bits: u32)
    ensures
        bits == hashed(index) >> 8u32,
        bits < 0x100_0000,
{
    let mut value = index.wrapping_mul(0x9e37_79b9u32);
    value = value ^ (value >> 16u32);
    value = value.wrapping_mul(0x85eb_ca6bu32);
    value = value ^ (value >> 13u32);
    let bits = value >> 8u32;
    assert(bits < 0x100_0000) by (bit_vector)
        requires
            bits == value >> 8u32,
    ;
    bits
}

} // verus!
