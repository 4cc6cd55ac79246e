//! Binary64 bit patterns of large unsigned integers.
//!
//! Floats travel through this crate as their IEEE-754 binary64 bit
//! patterns. An unsigned integer too large for a signed 64-bit integer
//! becomes the nearest binary64 number, computed here on integers alone.
use vstd::prelude::*;

verus! {

/// The biased-exponent field of numbers in [2^63, 2^64), in place.
pub const EXPONENT_63: u64 = 0x43E0_0000_0000_0000;

/// 2^52: the implicit leading bit of a binary64 significand.
pub const HIDDEN_BIT: u64 = 0x0010_0000_0000_0000;

/// For `u` of at least 2^63 - 1, the bit pattern of the binary64 number
/// nearest to `u`, a tie going to the even significand.
///
/// From 2^63 on, a number keeps its upper 53 bits; the lower 11 round it up
/// when they are more than half a step, or exactly half with an odd upper
/// part. The carry of a rounded-up significand of all ones runs into the
/// exponent field, which gives 2^64. Below 2^63 only 2^63 - 1 is meant, and
/// it rounds up to 2^63.
pub open spec fn large_u64_float_bits(u: u64) -> u64 {
    if u < 0x8000_0000_0000_0000 {
        EXPONENT_63
    } else {
        let upper = u / 2048;
        let lower = u % 2048;
        let round_up: int = if lower > 1024 || (lower == 1024 && upper % 2 == 1) {
            1
        } else {
            0
        };
        (EXPONENT_63 + (upper - HIDDEN_BIT) + round_up) as u64
    }
}

/// The number that a bit pattern with exponent field 1086 or 1087 stands
/// for: its significand with the hidden bit, times 2^11 or 2^12.
pub open spec fn large_float_value(bits: u64) -> int {
    let exponent = bits / HIDDEN_BIT;
    let significand = HIDDEN_BIT + bits % HIDDEN_BIT;
    if exponent == 1086 {
        significand * 2048
    } else {
        significand * 4096
    }
}

/// Computes `large_u64_float_bits`.
pub(crate) fn u64_to_float_bits(u: u64) -> (bits: u64)
    requires
        u >= 0x7FFF_FFFF_FFFF_FFFF,
    ensures
        bits == large_u64_float_bits(u),
{
    if u < 0x8000_0000_0000_0000 {
        EXPONENT_63
    } else {
        let upper: u64 = u / 2048;
        let lower: u64 = u % 2048;
        let round_up: u64 = if lower > 1024 || (lower == 1024 && upper % 2 == 1) {
            1
        } else {
            0
        };
        EXPONENT_63 + (upper - HIDDEN_BIT) + round_up
    }
}

/// The pattern computed for a large unsigned integer stands for a number
/// within half a step (1024) of it, and where it is exactly half a step
/// away the significand is even.
pub proof fn law_large_u64_float_bits_nearest(u: u64)
    requires
        u >= 0x7FFF_FFFF_FFFF_FFFF,
    ensures
        ({
            let bits = large_u64_float_bits(u);
            let exponent = bits / HIDDEN_BIT;
            let significand = bits % HIDDEN_BIT;
            &&& exponent == 1086 || (exponent == 1087 && significand == 0)
            &&& -1024 <= large_float_value(bits) - u <= 1024
            &&& (large_float_value(bits) - u == 1024 || u - large_float_value(bits) == 1024)
                ==> significand % 2 == 0
        }),
{
    let bits = large_u64_float_bits(u);
    if u >= 0x8000_0000_0000_0000 {
        let upper = u / 2048;
        let lower = u % 2048;
        assert(u == upper * 2048 + lower);
        assert(HIDDEN_BIT <= upper < 2 * HIDDEN_BIT);
    }
}

} // verus!
