//! Decoding of the two-bit rotary switches.
use vstd::prelude::*;

verus! {

/// The position of a two-bit switch read through pull-up inputs: a pin pulled low reads
/// as a one bit, the first pin being the most significant.
pub fn switch_position(msb_low: bool, lsb_low: bool) -> (position: u8)
    ensures
        position == 2 * (if msb_low { 1int } else { 0 }) + (if lsb_low { 1int } else { 0 }),
        position < 4,
{
    let msb_bit = msb_low as u8;
    let lsb_bit = lsb_low as u8;
    assert(msb_bit <= 1 && lsb_bit <= 1 ==> ((msb_bit << 1) | lsb_bit) == 2 * msb_bit + lsb_bit)
        by (bit_vector);
    (msb_bit << 1) | lsb_bit
}

} // verus!
