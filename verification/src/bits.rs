//! A total order on the bit patterns of IEEE 754 single-precision values.
//!
//! A finite single-precision value with sign bit `s`, and magnitude bits `m`
//! (the low 31 bits of its pattern), denotes `(-1)^s * m'` for a magnitude
//! `m'` that grows strictly with `m`.  Mapping a pattern `b` to the integer
//! key `b` when the sign bit is clear and `0x8000_0000 - b` when it is set
//! therefore orders all finite patterns exactly as the values they denote,
//! and gives the two zero patterns (`+0.0` and `-0.0`) the same key, as the
//! usual comparison does.  NaN patterns, which the usual comparison treats
//! as unordered, are placed beyond the infinities of their sign; sigmoid
//! outputs, the only values the decoder compares, are never NaN.

use vstd::prelude::*;

verus! {

/// The sign bit of a single-precision pattern.
pub const SIGN_BIT: u32 = 0x8000_0000;

/// The pattern of `1.0f32`.
pub const ONE_BITS: u32 = 0x3F80_0000;

/// The integer key under which bit patterns are compared.
pub open spec fn float_key(b: u32) -> int {
    if b < SIGN_BIT {
        b as int
    } else {
        SIGN_BIT - b as int
    }
}

/// Whether the pattern denotes a value in the closed interval `[0.0, 1.0]`.
/// The keys of the two interval endpoints bound exactly the patterns of the
/// values inside it; NaN keys lie strictly beyond the key of `1.0`.
pub open spec fn unit_interval_bits(b: u32) -> bool {
    0 <= float_key(b) <= ONE_BITS
}

/// Strict `>` on patterns, decided by their integer keys.
pub fn bits_gt(a: u32, b: u32) -> (r: bool)
    ensures
        r == (float_key(a) > float_key(b)),
{
    if a < SIGN_BIT {
        if b < SIGN_BIT {
            a > b
        } else {
            !(a == 0 && b == SIGN_BIT)
        }
    } else {
        if b < SIGN_BIT {
            false
        } else {
            a < b
        }
    }
}

} // verus!
