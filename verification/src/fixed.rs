//! Q15 fixed-point helpers shared by the audio blocks.
use vstd::prelude::*;

verus! {

/// The i16 range applied to a mathematical integer (saturation).
pub open spec fn clamp16(x: int) -> int {
    if x < -32768 {
        -32768
    } else if x > 32767 {
        32767
    } else {
        x
    }
}

/// An arithmetic right shift by 15 bits: division by 2^15 rounded toward minus infinity.
pub open spec fn shr15(x: int) -> int {
    x / 32768
}

/// The Q15 product of two values: their product shifted right by 15 bits.
pub open spec fn q15(a: int, b: int) -> int {
    shr15(a * b)
}

/// Integer division rounded toward zero, as the `/` of Rust's signed integers computes it.
pub open spec fn div_trunc(a: int, b: int) -> int {
    if a >= 0 {
        a / b
    } else {
        -((-a) / b)
    }
}

/// `x >> 15` on an `i32` is floor division by 2^15.
pub proof fn lemma_shr15(x: i32)
    ensures
        x >> 15 == x / 32768,
{
    assert(x >> 15 == x / 32768) by (bit_vector);
}

/// Shifting right by 15 bits keeps a product of two values of the i16 range (the first may
/// also be 32768) within [-32768, 32768], and inside the i16 range when the second is not
/// negative and the first is at most 32767.
pub proof fn lemma_q15_bounds(a: int, b: int)
    requires
        -32768 <= a <= 32768,
        -32768 <= b <= 32767,
    ensures
        -32768 <= q15(a, b) <= 32768,
        -1073741824 <= a * b <= 1073741824,
        b >= 0 && a <= 32767 ==> -32768 <= q15(a, b) <= 32767,
        a >= 0 && b >= 0 ==> 0 <= q15(a, b) <= a,
        b >= 0 ==> -b <= q15(a, b) <= b,
{
    assert(-1073741824 <= a * b <= 1073741824) by (nonlinear_arith)
        requires
            -32768 <= a <= 32768,
            -32768 <= b <= 32767,
    ;
    assert(-32768 <= (a * b) / 32768 <= 32768) by (nonlinear_arith)
        requires
            -1073741824 <= a * b <= 1073741824,
    ;
    if b >= 0 {
        assert(-32768 * b <= a * b <= 32768 * b) by (nonlinear_arith)
            requires
                -32768 <= a <= 32768,
                0 <= b,
        ;
        assert(-b <= (a * b) / 32768 <= b) by (nonlinear_arith)
            requires
                -32768 * b <= a * b <= 32768 * b,
                0 <= b,
        ;
        if a <= 32767 {
            assert(a * b <= 32767 * b) by (nonlinear_arith)
                requires
                    a <= 32767,
                    0 <= b,
            ;
            assert((a * b) / 32768 <= 32767) by (nonlinear_arith)
                requires
                    a * b <= 32767 * b,
                    0 <= b <= 32767,
            ;
        }
        if a >= 0 {
            assert(0 <= (a * b) / 32768 <= a) by (nonlinear_arith)
                requires
                    0 <= a,
                    0 <= b <= 32767,
            ;
        }
    }
}

/// Saturates a 32-bit value into the i16 range.
pub fn clamp_to_i16(x: i32) -> (r: i16)
    ensures
        r == clamp16(x as int),
{
    if x < -32768 {
        -32768
    } else if x > 32767 {
        32767
    } else {
        x as i16
    }
}

/// Adds two samples, saturating at the bounds of i16.
pub fn saturating_add_i16(a: i16, b: i16) -> (r: i16)
    ensures
        r == clamp16(a + b),
{
    clamp_to_i16(a as i32 + b as i32)
}

/// The Q15 product `(a * b) >> 15` of two values in the i16 range (the first may also be
/// 32768).
pub fn mul_q15(a: i32, b: i32) -> (r: i32)
    requires
        -32768 <= a <= 32768,
        -32768 <= b <= 32767,
    ensures
        r == q15(a as int, b as int),
{
    proof {
        lemma_q15_bounds(a as int, b as int);
    }
    let p = a * b;
    proof {
        lemma_shr15(p);
    }
    p >> 15
}

} // verus!
