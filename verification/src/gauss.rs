//! Standard-normal sampling by the inverse-CDF method.
//!
//! A uniform draw in (0, 1) is mapped through a rational approximation of
//! the inverse normal distribution function (a central rational polynomial
//! with dedicated tail branches using `sqrt(-2 ln p)`), computed entirely in
//! the crate's software binary32 arithmetic, so every sample is a
//! deterministic function of the generator state.

use vstd::prelude::*;
use crate::fbits::{sp_expf, sp_frac, sp_neg, f32_neg};
use crate::softfloat::{
    sp_f32_add, sp_f32_div, sp_f32_mul, sp_f32_sqrt, sp_f32_sub, sp_f32_from_u32, f32_add,
    f32_div, f32_mul, f32_sqrt, f32_sub, f32_from_u32,
};
use crate::rng::{Pcg, sp_next};

verus! {

/// 1.0
pub const ONE: u32 = 0x3F80_0000;

/// 0.5
pub const HALF: u32 = 0x3F00_0000;

/// -2.0
pub const NEG_TWO: u32 = 0xC000_0000;

/// ln 2
pub const LN2: u32 = 0x3F31_7218;

/// 1/3, 1/5, 1/7, 1/9, 1/11: the odd reciprocals of the log series.
pub const R3: u32 = 0x3EAA_AAAB;

/// 1/5
pub const R5: u32 = 0x3E4C_CCCD;

/// 1/7
pub const R7: u32 = 0x3E12_4925;

/// 1/9
pub const R9: u32 = 0x3DE3_8E39;

/// 1/11
pub const R11: u32 = 0x3DBA_2E8C;

/// Natural logarithm of a positive normal value: split off the exponent,
/// then sum the odd-power series of `ln m` over `t = (m-1)/(m+1)` for the
/// mantissa part `m` in [1, 2). Anything outside that domain maps to NaN.
pub open spec fn sp_ln(b: u32) -> u32 {
    if sp_expf(b) == 0 || sp_expf(b) == 255 || b >= 0x8000_0000 {
        crate::fbits::QNAN
    } else {
        sp_ln_core(b)
    }
}

/// The in-domain part of `sp_ln`.
pub open spec fn sp_ln_core(b: u32) -> u32 {
    let m = (0x3F80_0000 + sp_frac(b)) as u32;
    let e = sp_expf(b) as int - 127;
    let t = sp_f32_div(sp_f32_sub(m, ONE), sp_f32_add(m, ONE));
    let t2 = sp_f32_mul(t, t);
    let s5 = sp_f32_add(R9, sp_f32_mul(t2, R11));
    let s4 = sp_f32_add(R7, sp_f32_mul(t2, s5));
    let s3 = sp_f32_add(R5, sp_f32_mul(t2, s4));
    let s2 = sp_f32_add(R3, sp_f32_mul(t2, s3));
    let s1 = sp_f32_add(ONE, sp_f32_mul(t2, s2));
    let lnm = sp_f32_mul(sp_f32_mul(0x4000_0000, t), s1);
    let ef = if e >= 0 {
        sp_f32_from_u32(e as u32)
    } else {
        sp_neg(sp_f32_from_u32((-e) as u32))
    };
    sp_f32_add(sp_f32_mul(ef, LN2), lnm)
}

/// Executable logarithm; see `sp_ln`.
pub fn f32_ln(b: u32) -> (r: u32)
    ensures
        r == sp_ln(b),
{
    let ef = (b / 0x0080_0000) % 0x100;
    if ef == 0 || ef == 255 || b >= 0x8000_0000 {
        return crate::fbits::QNAN;
    }
    let m = 0x3F80_0000 + b % 0x0080_0000;
    let e: i64 = ((b / 0x0080_0000) % 0x100) as i64 - 127;
    let t = f32_div(f32_sub(m, ONE), f32_add(m, ONE));
    let t2 = f32_mul(t, t);
    let s5 = f32_add(R9, f32_mul(t2, R11));
    let s4 = f32_add(R7, f32_mul(t2, s5));
    let s3 = f32_add(R5, f32_mul(t2, s4));
    let s2 = f32_add(R3, f32_mul(t2, s3));
    let s1 = f32_add(ONE, f32_mul(t2, s2));
    let lnm = f32_mul(f32_mul(0x4000_0000, t), s1);
    let ef = if e >= 0 {
        f32_from_u32(e as u32)
    } else {
        f32_neg(f32_from_u32((-e) as u32))
    };
    f32_add(f32_mul(ef, LN2), lnm)
}

/// Threshold of the lower tail branch (0.02425).
pub const P_LOW: u32 = 0x3CC6_A7F0;

/// Threshold of the upper tail branch (1 - 0.02425).
pub const P_HIGH: u32 = 0x3F79_CAC1;

/// Numerator coefficients of the central rational approximation.
pub const A1: u32 = 0xC21E_C98E;

/// Central numerator coefficient.
pub const A2: u32 = 0x435C_F234;

/// Central numerator coefficient.
pub const A3: u32 = 0xC389_F6D9;

/// Central numerator coefficient.
pub const A4: u32 = 0x430A_5B96;

/// Central numerator coefficient.
pub const A5: u32 = 0xC1F5_5182;

/// Central numerator coefficient.
pub const A6: u32 = 0x4020_6C99;

/// Central denominator coefficient.
pub const B1: u32 = 0xC259_E786;

/// Central denominator coefficient.
pub const B2: u32 = 0x4321_95F9;

/// Central denominator coefficient.
pub const B3: u32 = 0xC31B_B2F0;

/// Central denominator coefficient.
pub const B4: u32 = 0x4285_9A46;

/// Central denominator coefficient.
pub const B5: u32 = 0xC154_7DAC;

/// Tail numerator coefficient.
pub const C1: u32 = 0xBBFF_186D;

/// Tail numerator coefficient.
pub const C2: u32 = 0xBEA5_1126;

/// Tail numerator coefficient.
pub const C3: u32 = 0xC019_A606;

/// Tail numerator coefficient.
pub const C4: u32 = 0xC023_2ED1;

/// Tail numerator coefficient.
pub const C5: u32 = 0x408B_FD40;

/// Tail numerator coefficient.
pub const C6: u32 = 0x403C_0AE1;

/// Tail denominator coefficient.
pub const D1: u32 = 0x3BFF_16C3;

/// Tail denominator coefficient.
pub const D2: u32 = 0x3EA5_1A69;

/// Tail denominator coefficient.
pub const D3: u32 = 0x401C_7D14;

/// Tail denominator coefficient.
pub const D4: u32 = 0x4070_483B;

/// The tail value for `q = sqrt(-2 ln p)`: a rational function of `q`.
pub open spec fn sp_tail(q: u32) -> u32 {
    let n5 = sp_f32_add(sp_f32_mul(C1, q), C2);
    let n4 = sp_f32_add(sp_f32_mul(n5, q), C3);
    let n3 = sp_f32_add(sp_f32_mul(n4, q), C4);
    let n2 = sp_f32_add(sp_f32_mul(n3, q), C5);
    let n1 = sp_f32_add(sp_f32_mul(n2, q), C6);
    let d4 = sp_f32_add(sp_f32_mul(D1, q), D2);
    let d3 = sp_f32_add(sp_f32_mul(d4, q), D3);
    let d2 = sp_f32_add(sp_f32_mul(d3, q), D4);
    let d1 = sp_f32_add(sp_f32_mul(d2, q), ONE);
    sp_f32_div(n1, d1)
}

fn tail(q: u32) -> (r: u32)
    ensures
        r == sp_tail(q),
{
    let n5 = f32_add(f32_mul(C1, q), C2);
    let n4 = f32_add(f32_mul(n5, q), C3);
    let n3 = f32_add(f32_mul(n4, q), C4);
    let n2 = f32_add(f32_mul(n3, q), C5);
    let n1 = f32_add(f32_mul(n2, q), C6);
    let d4 = f32_add(f32_mul(D1, q), D2);
    let d3 = f32_add(f32_mul(d4, q), D3);
    let d2 = f32_add(f32_mul(d3, q), D4);
    let d1 = f32_add(f32_mul(d2, q), ONE);
    f32_div(n1, d1)
}

/// Inverse of the standard normal distribution function for `p` in (0, 1)
/// with a normal bit pattern: tail branches below `P_LOW` and above
/// `P_HIGH`, the central rational approximation in between.
pub open spec fn sp_inv_norm_cdf(p: u32) -> u32 {
    if crate::fbits::sp_lt(p, P_LOW) {
        let q = sp_f32_sqrt(sp_f32_mul(NEG_TWO, sp_ln(p)));
        sp_tail(q)
    } else if crate::fbits::sp_lt(P_HIGH, p) {
        let p1 = sp_f32_sub(ONE, p);
        let q = sp_f32_sqrt(sp_f32_mul(NEG_TWO, sp_ln(p1)));
        sp_neg(sp_tail(q))
    } else {
        let q = sp_f32_sub(p, HALF);
        let r = sp_f32_mul(q, q);
        let n6 = sp_f32_add(sp_f32_mul(A1, r), A2);
        let n5 = sp_f32_add(sp_f32_mul(n6, r), A3);
        let n4 = sp_f32_add(sp_f32_mul(n5, r), A4);
        let n3 = sp_f32_add(sp_f32_mul(n4, r), A5);
        let n2 = sp_f32_add(sp_f32_mul(n3, r), A6);
        let d5 = sp_f32_add(sp_f32_mul(B1, r), B2);
        let d4 = sp_f32_add(sp_f32_mul(d5, r), B3);
        let d3 = sp_f32_add(sp_f32_mul(d4, r), B4);
        let d2 = sp_f32_add(sp_f32_mul(d3, r), B5);
        let d1 = sp_f32_add(sp_f32_mul(d2, r), ONE);
        sp_f32_div(sp_f32_mul(q, n2), d1)
    }
}

/// Executable inverse normal distribution function; see `sp_inv_norm_cdf`.
pub fn inv_norm_cdf(p: u32) -> (r: u32)
    ensures
        r == sp_inv_norm_cdf(p),
{
    if crate::fbits::f32_lt(p, P_LOW) {
        let q = f32_sqrt(f32_mul(NEG_TWO, f32_ln(p)));
        tail(q)
    } else if crate::fbits::f32_lt(P_HIGH, p) {
        let p1 = f32_sub(ONE, p);
        let q = f32_sqrt(f32_mul(NEG_TWO, f32_ln(p1)));
        f32_neg(tail(q))
    } else {
        let q = f32_sub(p, HALF);
        let r = f32_mul(q, q);
        let n6 = f32_add(f32_mul(A1, r), A2);
        let n5 = f32_add(f32_mul(n6, r), A3);
        let n4 = f32_add(f32_mul(n5, r), A4);
        let n3 = f32_add(f32_mul(n4, r), A5);
        let n2 = f32_add(f32_mul(n3, r), A6);
        let d5 = f32_add(f32_mul(B1, r), B2);
        let d4 = f32_add(f32_mul(d5, r), B3);
        let d3 = f32_add(f32_mul(d4, r), B4);
        let d2 = f32_add(f32_mul(d3, r), B5);
        let d1 = f32_add(f32_mul(d2, r), ONE);
        f32_div(f32_mul(q, n2), d1)
    }
}

/// A standard-normal draw: one uniform word gives `p = (2k+1) / 2^24` in
/// (0, 1) (exactly representable, symmetric, never 0 or 1), which is mapped
/// through the inverse distribution function.
pub open spec fn sp_next_normal(g: Pcg) -> (Pcg, u32) {
    let (g2, v) = sp_next(g);
    let k = (v >> 41u64) as u32;
    let p = sp_f32_mul(sp_f32_from_u32((2 * k + 1) as u32), 0x3380_0000);
    (g2, sp_inv_norm_cdf(p))
}

impl Pcg {
    /// Draws a standard-normal binary32 value; see `sp_next_normal`.
    pub fn next_normal(&mut self) -> (r: u32)
        ensures
            (*final(self), r) == sp_next_normal(*old(self)),
    {
        let v = self.next_u64();
        let k = (v >> 41u64) as u32;
        proof {
            assert(v >> 41u64 < 0x80_0000) by (bit_vector);
        }
        let p = f32_mul(f32_from_u32(2 * k + 1), 0x3380_0000);
        inv_norm_cdf(p)
    }
}

} // verus!
