//! Model of IEEE-754 binary32 values as their raw bit patterns.
//!
//! Every floating-point quantity in this crate is carried as a `u32` holding
//! the value's bit pattern (sign bit, 8-bit biased exponent, 23-bit fraction).
//! This module gives the field decoding, the classification predicates, the
//! sign operations, the ordering of non-NaN values, and the NaN-to-penalty
//! mapping that keeps every fitness value totally ordered.

use vstd::prelude::*;

verus! {

/// Bit pattern of the canonical quiet NaN produced by arithmetic.
pub const QNAN: u32 = 0x7FC0_0000;

/// Bit pattern of the large finite penalty (100.0) that replaces a NaN error,
/// so that sorting and selection always work over a total order.
pub const PENALTY: u32 = 0x42C8_0000;

/// Sign field: 0 for positive, 1 for negative.
pub open spec fn sp_sign(b: u32) -> u32 {
    b / 0x8000_0000
}

/// Biased exponent field, 0..=255.
pub open spec fn sp_expf(b: u32) -> u32 {
    (b / 0x0080_0000) % 0x100
}

/// Fraction field, 0..0x80_0000.
pub open spec fn sp_frac(b: u32) -> u32 {
    b % 0x0080_0000
}

/// Magnitude: the bit pattern with the sign bit cleared.
pub open spec fn sp_mag(b: u32) -> u32 {
    b % 0x8000_0000
}

/// NaN: exponent field all ones, nonzero fraction.
pub open spec fn sp_is_nan(b: u32) -> bool {
    sp_expf(b) == 255 && sp_frac(b) != 0
}

/// Positive or negative infinity.
pub open spec fn sp_is_inf(b: u32) -> bool {
    sp_expf(b) == 255 && sp_frac(b) == 0
}

/// Positive or negative zero.
pub open spec fn sp_is_zero(b: u32) -> bool {
    sp_mag(b) == 0
}

/// Finite value: zero, subnormal or normal.
pub open spec fn sp_is_finite(b: u32) -> bool {
    sp_expf(b) != 255
}

/// Total-order key of a non-NaN value: magnitudes ordered as integers,
/// negatives below positives, both zeros at key 0. On non-NaN patterns this
/// order coincides with the IEEE `<` relation.
pub open spec fn sp_key(b: u32) -> int {
    if sp_sign(b) == 0 {
        sp_mag(b) as int
    } else {
        -(sp_mag(b) as int)
    }
}

/// The bit pattern with the sign flipped.
pub open spec fn sp_neg(b: u32) -> u32 {
    if b >= 0x8000_0000 {
        (b - 0x8000_0000) as u32
    } else {
        (b + 0x8000_0000) as u32
    }
}

/// The bit pattern with the sign cleared (absolute value).
pub open spec fn sp_abs(b: u32) -> u32 {
    sp_mag(b)
}

/// IEEE `<`: false when either side is NaN, otherwise the key order.
pub open spec fn sp_lt(a: u32, b: u32) -> bool {
    !sp_is_nan(a) && !sp_is_nan(b) && sp_key(a) < sp_key(b)
}

/// IEEE `<=`: false when either side is NaN, otherwise the key order.
pub open spec fn sp_le(a: u32, b: u32) -> bool {
    !sp_is_nan(a) && !sp_is_nan(b) && sp_key(a) <= sp_key(b)
}

/// A NaN is replaced by the large finite penalty; anything else is kept.
pub open spec fn sp_penalize(b: u32) -> u32 {
    if sp_is_nan(b) {
        PENALTY
    } else {
        b
    }
}

/// Tests whether the pattern encodes a NaN.
pub fn f32_is_nan(b: u32) -> (r: bool)
    ensures
        r == sp_is_nan(b),
{
    (b / 0x0080_0000) % 0x100 == 255 && b % 0x0080_0000 != 0
}

/// Flips the sign bit.
pub fn f32_neg(b: u32) -> (r: u32)
    ensures
        r == sp_neg(b),
{
    if b >= 0x8000_0000 {
        b - 0x8000_0000
    } else {
        b + 0x8000_0000
    }
}

/// Clears the sign bit.
pub fn f32_abs(b: u32) -> (r: u32)
    ensures
        r == sp_abs(b),
{
    b % 0x8000_0000
}

/// IEEE `<` on bit patterns (false whenever a NaN is involved).
pub fn f32_lt(a: u32, b: u32) -> (r: bool)
    ensures
        r == sp_lt(a, b),
{
    if f32_is_nan(a) || f32_is_nan(b) {
        false
    } else {
        let sa = a / 0x8000_0000;
        let sb = b / 0x8000_0000;
        let ma = a % 0x8000_0000;
        let mb = b % 0x8000_0000;
        if sa != sb {
            sa == 1 && (ma != 0 || mb != 0)
        } else if sa == 0 {
            ma < mb
        } else {
            mb < ma
        }
    }
}

/// IEEE `<=` on bit patterns (false whenever a NaN is involved).
pub fn f32_le(a: u32, b: u32) -> (r: bool)
    ensures
        r == sp_le(a, b),
{
    if f32_is_nan(a) || f32_is_nan(b) {
        false
    } else {
        let sa = a / 0x8000_0000;
        let sb = b / 0x8000_0000;
        let ma = a % 0x8000_0000;
        let mb = b % 0x8000_0000;
        if sa != sb {
            sa == 1 || (ma == 0 && mb == 0)
        } else if sa == 0 {
            ma <= mb
        } else {
            mb <= ma
        }
    }
}

/// Strict order of the total keys themselves (every pattern, NaN included,
/// has a key, so this order is total and fit for sorting).
pub fn f32_key_lt(a: u32, b: u32) -> (r: bool)
    ensures
        r == (sp_key(a) < sp_key(b)),
{
    let sa = a / 0x8000_0000;
    let sb = b / 0x8000_0000;
    let ma = a % 0x8000_0000;
    let mb = b % 0x8000_0000;
    if sa != sb {
        sa == 1 && (ma != 0 || mb != 0)
    } else if sa == 0 {
        ma < mb
    } else {
        mb < ma
    }
}

/// Replaces a NaN by the finite penalty value, leaving anything else alone.
pub fn f32_penalize(b: u32) -> (r: u32)
    ensures
        r == sp_penalize(b),
        !sp_is_nan(r),
{
    if f32_is_nan(b) {
        PENALTY
    } else {
        b
    }
}

} // verus!

