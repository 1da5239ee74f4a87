//! The lower bits of machine words.
use vstd::prelude::*;

verus! {

/// The lower 32 bits of a number are its remainder.
pub proof fn lower_bits_are_the_remainder(n: isize)
    ensures
        (n as u32) as int == n as int % 0x1_0000_0000,
{
    let wide = n as i64;
    let high = wide >> 32u64;
    assert(wide == high * 0x1_0000_0000 + (wide as u32)) by (bit_vector)
        requires
            high == wide >> 32u64,
    ;
}

} // verus!
