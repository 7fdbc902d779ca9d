//! Software implementation of IEEE-754 binary32 arithmetic on bit patterns.
//!
//! Each operation takes and returns `u32` bit patterns and is specified by a
//! spec-level mirror of its own algorithm, so that every result is pinned to a
//! deterministic function of the inputs. Rounding is to nearest, ties to
//! even; NaN results are the canonical quiet NaN. A finite nonzero pattern
//! with significand `sig` (24 bits, hidden bit included for normals) and
//! unbiased exponent `exp` denotes the value `(-1)^sign * sig * 2^(exp - 23)`.

use vstd::prelude::*;
use vstd::arithmetic::power2::{
    pow2, lemma2_to64, lemma2_to64_rest, lemma_pow2_pos, lemma_pow2_strictly_increases,
};
use vstd::std_specs::bits::u64_leading_zeros;
use crate::fbits::{sp_expf, sp_frac, sp_mag, sp_sign, sp_is_nan, sp_is_inf, sp_is_zero,
    sp_is_finite, sp_neg, f32_is_nan, f32_neg, QNAN};

verus! {

broadcast use vstd::std_specs::bits::axiom_u64_leading_zeros;

/// Significand of a finite pattern: fraction field plus the hidden bit for
/// normal numbers.
pub open spec fn sp_sig(b: u32) -> u64 {
    if sp_expf(b) == 0 {
        sp_frac(b) as u64
    } else {
        (sp_frac(b) + 0x0080_0000) as u64
    }
}

/// Unbiased exponent of a finite pattern, with subnormals pinned at -126.
pub open spec fn sp_exp(b: u32) -> int {
    if sp_expf(b) == 0 {
        -126
    } else {
        sp_expf(b) - 127
    }
}

/// Normalizes `m * 2^e` (with `m >= 1`) and rounds it to nearest, ties to
/// even, packing sign `s` with the result; overflows to infinity and
/// underflows through the subnormals to zero.
#[verifier::opaque]
pub open spec fn sp_nrp(s: u32, e: int, m: u64) -> u32 {
    let lz = u64_leading_zeros(m);
    let m1 = (m * pow2(lz as nat)) as u64;
    let exp = e - lz + 63;
    if exp > 127 {
        (s * 0x8000_0000 + 0x7F80_0000) as u32
    } else if exp >= -126 {
        let f24 = m1 / 0x100_0000_0000;
        let rest = m1 % 0x100_0000_0000;
        let up = rest > 0x80_0000_0000 || (rest == 0x80_0000_0000 && f24 % 2 == 1);
        let f2 = f24 + (if up { 1int } else { 0int });
        (s * 0x8000_0000 + (exp + 126) * 0x0080_0000 + f2) as u32
    } else {
        let sh = -126 - exp;
        if sh > 63 {
            (s * 0x8000_0000) as u32
        } else {
            let p = pow2(sh as nat) as u64;
            let m2 = m1 / p;
            let r2 = m1 % p;
            let f24 = m2 / 0x100_0000_0000;
            let rest = m2 % 0x100_0000_0000;
            let up = rest > 0x80_0000_0000 || (rest == 0x80_0000_0000 && (r2 != 0 || f24 % 2
                == 1));
            let f2 = f24 + (if up { 1int } else { 0int });
            (s * 0x8000_0000 + f2) as u32
        }
    }
}

/// 2^n as a `u64`.
fn pow2u64(n: u64) -> (r: u64)
    requires
        n <= 63,
    ensures
        r == pow2(n as nat),
    decreases n,
{
    if n == 0 {
        proof {
            lemma2_to64();
        }
        1
    } else {
        let h = pow2u64(n - 1);
        proof {
            lemma_pow2_strictly_increases((n - 1) as nat, 63);
            lemma2_to64_rest();
            assert(pow2(n as nat) == 2 * pow2((n - 1) as nat)) by {
                vstd::arithmetic::power2::lemma_pow2_unfold(n as nat);
            }
        }
        2 * h
    }
}

/// Executable normalize-round-pack; see `sp_nrp`.
fn nrp(s: u32, e: i64, m: u64) -> (r: u32)
    requires
        s <= 1,
        m >= 1,
        -1000 <= e <= 1000,
    ensures
        r == sp_nrp(s, e as int, m),
{
    proof {
        reveal(sp_nrp);
    }
    let lz64: u32 = m.leading_zeros();
    let lz: u64 = lz64 as u64;
    proof {
        assert(lz < 64);
    }
    let p0 = pow2u64(lz);
    proof {
        // m has lz leading zero bits, so m * 2^lz fits in 64 bits.
        if lz == 0 {
            assert(pow2(0) == 1) by {
                lemma2_to64();
            }
            assert(m * pow2(0) <= u64::MAX) by (nonlinear_arith)
                requires
                    pow2(0) == 1,
                    m <= u64::MAX,
            ;
        } else {
            assert(m >> vstd::prelude::sub(64u64, lz) == 0);
            vstd::bits::lemma_u64_shr_is_div(m, vstd::prelude::sub(64u64, lz) as u64);
            lemma_pow2_pos((64 - lz) as nat);
            vstd::arithmetic::div_mod::lemma_fundamental_div_mod(
                m as int,
                pow2((64 - lz) as nat) as int,
            );
            assert(m < pow2((64 - lz) as nat));
            assert(pow2((64 - lz) as nat) * pow2(lz as nat) == pow2(64)) by {
                vstd::arithmetic::power2::lemma_pow2_adds((64 - lz) as nat, lz as nat);
            }
            lemma2_to64_rest();
            assert(m * pow2(lz as nat) < pow2(64)) by (nonlinear_arith)
                requires
                    m < pow2((64 - lz) as nat),
                    pow2((64 - lz) as nat) * pow2(lz as nat) == pow2(64),
                    pow2(lz as nat) > 0,
            ;
        }
    }
    let m1: u64 = m * p0;
    let exp: i64 = e - (lz as i64) + 63;
    if exp > 127 {
        s * 0x8000_0000 + 0x7F80_0000
    } else if exp >= -126 {
        let f24: u64 = m1 / 0x100_0000_0000;
        let rest: u64 = m1 % 0x100_0000_0000;
        let up = rest > 0x80_0000_0000 || (rest == 0x80_0000_0000 && f24 % 2 == 1);
        let f2: u64 = f24 + (if up { 1u64 } else { 0u64 });
        (s as u64 * 0x8000_0000 + (exp + 126) as u64 * 0x0080_0000 + f2) as u32
    } else {
        let sh: i64 = -126 - exp;
        if sh > 63 {
            s * 0x8000_0000
        } else {
            let p = pow2u64(sh as u64);
            proof {
                lemma_pow2_pos(sh as nat);
            }
            let m2: u64 = m1 / p;
            let r2: u64 = m1 % p;
            let f24: u64 = m2 / 0x100_0000_0000;
            let rest: u64 = m2 % 0x100_0000_0000;
            let up = rest > 0x80_0000_0000 || (rest == 0x80_0000_0000 && (r2 != 0 || f24 % 2
                == 1));
            let f2: u64 = f24 + (if up { 1u64 } else { 0u64 });
            (s as u64 * 0x8000_0000 + f2) as u32
        }
    }
}

/// Splits a finite pattern into (significand, unbiased exponent).
fn unpack(b: u32) -> (r: (u64, i64))
    ensures
        r.0 == sp_sig(b),
        r.1 == sp_exp(b),
        r.0 < 0x100_0000,
        -126 <= r.1 <= 128,
{
    let ef = (b / 0x0080_0000) % 0x100;
    let fr = b % 0x0080_0000;
    if ef == 0 {
        (fr as u64, -126)
    } else {
        ((fr + 0x0080_0000) as u64, ef as i64 - 127)
    }
}

/// The significand of a finite nonzero pattern is nonzero.
proof fn lemma_sig_nonzero(b: u32)
    requires
        sp_is_finite(b),
        sp_mag(b) != 0,
    ensures
        sp_sig(b) >= 1,
{
    assert(b % 0x8000_0000 == ((b / 0x0080_0000) % 0x100) * 0x0080_0000 + b % 0x0080_0000)
        by (bit_vector);
}

/// Sign of a product or quotient.
pub open spec fn sp_sign_xor(a: u32, b: u32) -> u32 {
    ((sp_sign(a) + sp_sign(b)) % 2) as u32
}

/// Bit pattern of a signed infinity.
pub open spec fn sp_inf(s: u32) -> u32 {
    (s * 0x8000_0000 + 0x7F80_0000) as u32
}

/// Bit pattern of a signed zero.
pub open spec fn sp_zero(s: u32) -> u32 {
    (s * 0x8000_0000) as u32
}

/// Multiplication: special cases resolved first, then the exact 48-bit
/// significand product is rounded by `sp_nrp`.
pub open spec fn sp_f32_mul(a: u32, b: u32) -> u32 {
    if sp_is_nan(a) || sp_is_nan(b) {
        QNAN
    } else {
        let s = sp_sign_xor(a, b);
        if sp_is_inf(a) || sp_is_inf(b) {
            if sp_is_zero(a) || sp_is_zero(b) {
                QNAN
            } else {
                sp_inf(s)
            }
        } else if sp_is_zero(a) || sp_is_zero(b) {
            sp_zero(s)
        } else {
            sp_nrp(s, sp_exp(a) + sp_exp(b) - 46, (sp_sig(a) * sp_sig(b)) as u64)
        }
    }
}

/// Executable multiplication; see `sp_f32_mul`.
pub fn f32_mul(a: u32, b: u32) -> (r: u32)
    ensures
        r == sp_f32_mul(a, b),
{
    if f32_is_nan(a) || f32_is_nan(b) {
        QNAN
    } else {
        let s = (a / 0x8000_0000 + b / 0x8000_0000) % 2;
        let za = a % 0x8000_0000 == 0;
        let zb = b % 0x8000_0000 == 0;
        let ia = (a / 0x0080_0000) % 0x100 == 255;
        let ib = (b / 0x0080_0000) % 0x100 == 255;
        if ia || ib {
            if za || zb {
                QNAN
            } else {
                s * 0x8000_0000 + 0x7F80_0000
            }
        } else if za || zb {
            s * 0x8000_0000
        } else {
            let (siga, ea) = unpack(a);
            let (sigb, eb) = unpack(b);
            proof {
                lemma_sig_nonzero(a);
                lemma_sig_nonzero(b);
                assert(siga * sigb < 0x1_0000_0000_0000 && siga * sigb >= 1) by (nonlinear_arith)
                    requires
                        1 <= siga < 0x100_0000,
                        1 <= sigb < 0x100_0000,
                ;
            }
            nrp(s, ea + eb - 46, siga * sigb)
        }
    }
}

/// Addition with both operands finite and nonzero: align the significands
/// with 38 guard bits (folding shifted-out bits into the lowest bit), then
/// add or subtract the magnitudes and round.
pub open spec fn sp_add_core(a: u32, b: u32) -> u32 {
    let sa = sp_sign(a);
    let sb = sp_sign(b);
    let ma = (sp_sig(a) * 0x40_0000_0000) as u64;
    let mb = (sp_sig(b) * 0x40_0000_0000) as u64;
    let swap = sp_exp(b) > sp_exp(a);
    let shi = if swap { sb } else { sa };
    let slo = if swap { sa } else { sb };
    let mhi = if swap { mb } else { ma };
    let mlo0 = if swap { ma } else { mb };
    let eh = if swap { sp_exp(b) } else { sp_exp(a) };
    let d = if swap { sp_exp(b) - sp_exp(a) } else { sp_exp(a) - sp_exp(b) };
    let mlo = if d > 63 {
        1u64
    } else {
        let p = pow2(d as nat) as u64;
        let q = mlo0 / p;
        if mlo0 % p != 0 && q % 2 == 0 {
            (q + 1) as u64
        } else {
            q
        }
    };
    if shi == slo {
        sp_nrp(shi, eh - 61, (mhi + mlo) as u64)
    } else {
        if mhi == mlo {
            0u32
        } else if mhi > mlo {
            sp_nrp(shi, eh - 61, (mhi - mlo) as u64)
        } else {
            sp_nrp(slo, eh - 61, (mlo - mhi) as u64)
        }
    }
}

/// Addition: special cases resolved first, then `sp_add_core`.
pub open spec fn sp_f32_add(a: u32, b: u32) -> u32 {
    if sp_is_nan(a) || sp_is_nan(b) {
        QNAN
    } else if sp_is_inf(a) {
        if sp_is_inf(b) && sp_sign(a) != sp_sign(b) {
            QNAN
        } else {
            a
        }
    } else if sp_is_inf(b) {
        b
    } else if sp_is_zero(a) && sp_is_zero(b) {
        if sp_sign(a) == 1 && sp_sign(b) == 1 {
            0x8000_0000u32
        } else {
            0u32
        }
    } else if sp_is_zero(a) {
        b
    } else if sp_is_zero(b) {
        a
    } else {
        sp_add_core(a, b)
    }
}

/// Executable addition; see `sp_f32_add`.
pub fn f32_add(a: u32, b: u32) -> (r: u32)
    ensures
        r == sp_f32_add(a, b),
{
    if f32_is_nan(a) || f32_is_nan(b) {
        return QNAN;
    }
    let ia = (a / 0x0080_0000) % 0x100 == 255;
    let ib = (b / 0x0080_0000) % 0x100 == 255;
    let za = a % 0x8000_0000 == 0;
    let zb = b % 0x8000_0000 == 0;
    if ia {
        if ib && a / 0x8000_0000 != b / 0x8000_0000 {
            return QNAN;
        }
        return a;
    }
    if ib {
        return b;
    }
    if za && zb {
        if a / 0x8000_0000 == 1 && b / 0x8000_0000 == 1 {
            return 0x8000_0000;
        }
        return 0;
    }
    if za {
        return b;
    }
    if zb {
        return a;
    }
    let sa = a / 0x8000_0000;
    let sb = b / 0x8000_0000;
    let (siga, ea) = unpack(a);
    let (sigb, eb) = unpack(b);
    let ma: u64 = siga * 0x40_0000_0000;
    let mb: u64 = sigb * 0x40_0000_0000;
    let swap = eb > ea;
    let shi = if swap { sb } else { sa };
    let slo = if swap { sa } else { sb };
    let mhi = if swap { mb } else { ma };
    let mlo0 = if swap { ma } else { mb };
    let eh = if swap { eb } else { ea };
    let d: i64 = if swap { eb - ea } else { ea - eb };
    let mlo: u64 = if d > 63 {
        1u64
    } else {
        let p = pow2u64(d as u64);
        proof {
            lemma_pow2_pos(d as nat);
        }
        let q = mlo0 / p;
        if mlo0 % p != 0 && q % 2 == 0 {
            q + 1
        } else {
            q
        }
    };
    proof {
        assert(mlo <= mlo0 + 1);
    }
    if shi == slo {
        nrp(shi, eh - 61, mhi + mlo)
    } else {
        if mhi == mlo {
            0
        } else if mhi > mlo {
            nrp(shi, eh - 61, mhi - mlo)
        } else {
            nrp(slo, eh - 61, mlo - mhi)
        }
    }
}

/// Subtraction is addition of the negation (exact in IEEE-754).
pub open spec fn sp_f32_sub(a: u32, b: u32) -> u32 {
    sp_f32_add(a, sp_neg(b))
}

/// Executable subtraction; see `sp_f32_sub`.
pub fn f32_sub(a: u32, b: u32) -> (r: u32)
    ensures
        r == sp_f32_sub(a, b),
{
    let nb = f32_neg(b);
    f32_add(a, nb)
}

/// Division: special cases resolved first, then a 39-extra-bit significand
/// quotient with the remainder folded into the lowest bit, rounded by
/// `sp_nrp`.
pub open spec fn sp_f32_div(a: u32, b: u32) -> u32 {
    if sp_is_nan(a) || sp_is_nan(b) {
        QNAN
    } else {
        let s = sp_sign_xor(a, b);
        if sp_is_inf(a) {
            if sp_is_inf(b) {
                QNAN
            } else {
                sp_inf(s)
            }
        } else if sp_is_inf(b) {
            sp_zero(s)
        } else if sp_is_zero(b) {
            if sp_is_zero(a) {
                QNAN
            } else {
                sp_inf(s)
            }
        } else if sp_is_zero(a) {
            sp_zero(s)
        } else {
            let na = (sp_sig(a) * 0x80_0000_0000) as u64;
            let q = na / sp_sig(b);
            let qj = if na % sp_sig(b) != 0 && q % 2 == 0 {
                (q + 1) as u64
            } else {
                q
            };
            sp_nrp(s, sp_exp(a) - sp_exp(b) - 39, qj)
        }
    }
}

/// Executable division; see `sp_f32_div`.
pub fn f32_div(a: u32, b: u32) -> (r: u32)
    ensures
        r == sp_f32_div(a, b),
{
    if f32_is_nan(a) || f32_is_nan(b) {
        return QNAN;
    }
    let s = (a / 0x8000_0000 + b / 0x8000_0000) % 2;
    let ia = (a / 0x0080_0000) % 0x100 == 255;
    let ib = (b / 0x0080_0000) % 0x100 == 255;
    let za = a % 0x8000_0000 == 0;
    let zb = b % 0x8000_0000 == 0;
    if ia {
        if ib {
            QNAN
        } else {
            s * 0x8000_0000 + 0x7F80_0000
        }
    } else if ib {
        s * 0x8000_0000
    } else if zb {
        if za {
            QNAN
        } else {
            s * 0x8000_0000 + 0x7F80_0000
        }
    } else if za {
        s * 0x8000_0000
    } else {
        let (siga, ea) = unpack(a);
        let (sigb, eb) = unpack(b);
        proof {
            lemma_sig_nonzero(a);
            lemma_sig_nonzero(b);
        }
        let na: u64 = siga * 0x80_0000_0000;
        let q = na / sigb;
        let qj = if na % sigb != 0 && q % 2 == 0 {
            q + 1
        } else {
            q
        };
        proof {
            assert(qj >= 1) by {
                vstd::arithmetic::div_mod::lemma_div_non_zero(na as int, sigb as int);
            }
        }
        nrp(s, ea - eb - 39, qj)
    }
}

/// The integer square root, characterized by `r^2 <= n < (r+1)^2`.
pub open spec fn sp_isqrt(n: u64) -> u64 {
    choose|r: u64| #[trigger] (r * r) <= n < (r + 1) * (r + 1)
}

proof fn lemma_isqrt_unique(x: u64, y: u64, n: u64)
    by (nonlinear_arith)
    requires
        x * x <= n,
        n < (x + 1) * (x + 1),
        y * y <= n,
        n < (y + 1) * (y + 1),
    ensures
        x == y,
{
}

/// Executable integer square root by bisection.
fn isqrt64(n: u64) -> (r: u64)
    ensures
        r == sp_isqrt(n),
        r * r <= n < (r + 1) * (r + 1),
        r < 0x1_0000_0000,
{
    let mut lo: u64 = 0;
    let mut hi: u64 = 0x1_0000_0000;
    proof {
        assert(0x1_0000_0000u64 * 0x1_0000_0000u64 > n as int) by (nonlinear_arith)
            requires
                n <= u64::MAX,
        ;
    }
    while hi - lo > 1
        invariant
            lo < hi <= 0x1_0000_0000,
            lo * lo <= n,
            n < hi * hi,
        decreases hi - lo,
    {
        let mid = lo + (hi - lo) / 2;
        proof {
            assert(mid * mid <= 0xFFFF_FFFFu64 * 0xFFFF_FFFFu64) by (nonlinear_arith)
                requires
                    mid <= 0xFFFF_FFFFu64,
            ;
        }
        if mid * mid <= n {
            lo = mid;
        } else {
            hi = mid;
        }
    }
    proof {
        assert(hi == lo + 1);
        assert(exists|r: u64| #[trigger] (r * r) <= n < (r + 1) * (r + 1)) by {
            assert(lo * lo <= n < (lo + 1) * (lo + 1));
        }
        let w = sp_isqrt(n);
        lemma_isqrt_unique(lo, w, n);
    }
    lo
}

/// Scales a significand up by fours until it reaches the normal range,
/// counting the steps; each step is exact and keeps the exponent's parity
/// when the exponent is lowered by two per step. This gives the integer
/// square root below enough bits for correct rounding.
pub open spec fn sp_sqrt_norm(sig: u64) -> (u64, int)
    decreases (if sig < 0x40_0000 { 0x40_0000 - sig } else { 0int }),
{
    if sig == 0 || sig >= 0x40_0000 {
        (sig, 0)
    } else {
        let (s2, t2) = sp_sqrt_norm((sig * 4) as u64);
        (s2, t2 + 1)
    }
}

/// Executable counterpart of `sp_sqrt_norm`.
fn sqrt_norm(sig: u64) -> (r: (u64, u64))
    requires
        1 <= sig < 0x100_0000,
    ensures
        (r.0, r.1 as int) == sp_sqrt_norm(sig),
        0x40_0000 <= r.0 < 0x100_0000,
        r.0 == sig * pow2((2 * r.1) as nat),
        r.1 <= 11,
    decreases (if sig < 0x40_0000 { 0x40_0000 - sig } else { 0int }),
{
    if sig >= 0x40_0000 {
        proof {
            assert(pow2(0) == 1) by {
                lemma2_to64();
            }
            assert(sig * pow2(0) == sig) by (nonlinear_arith)
                requires
                    pow2(0) == 1,
            ;
        }
        (sig, 0)
    } else {
        let (s2, t2) = sqrt_norm(sig * 4);
        proof {
            assert(pow2((2 * t2 + 2) as nat) == pow2((2 * t2) as nat) * 4) by {
                vstd::arithmetic::power2::lemma_pow2_adds((2 * t2) as nat, 2);
                lemma2_to64();
            }
            assert((sig * 4) * pow2((2 * t2) as nat) == sig * (pow2((2 * t2) as nat) * 4))
                by (nonlinear_arith);
            assert(s2 == sig * pow2((2 * (t2 + 1)) as nat));
            // The product stays under 2^24, so at most 11 steps happen.
            assert(t2 + 1 <= 11) by {
                if t2 + 1 >= 12 {
                    if 2 * (t2 + 1) > 24 {
                        lemma_pow2_strictly_increases(24, (2 * (t2 + 1)) as nat);
                    }
                    lemma2_to64();
                    assert(sig * pow2((2 * (t2 + 1)) as nat) >= pow2((2 * (t2 + 1)) as nat))
                        by (nonlinear_arith)
                        requires
                            sig >= 1,
                            pow2((2 * (t2 + 1)) as nat) > 0,
                    ;
                }
            }
        }
        (s2, t2 + 1)
    }
}

/// Square root: NaN for negative nonzero or NaN inputs, identity on zeros
/// and +infinity, otherwise the rounded integer square root of the
/// significand scaled to an even exponent.
pub open spec fn sp_f32_sqrt(a: u32) -> u32 {
    if sp_is_nan(a) {
        QNAN
    } else if sp_is_zero(a) {
        a
    } else if sp_sign(a) == 1 {
        QNAN
    } else if sp_is_inf(a) {
        a
    } else {
        let (sg, t) = sp_sqrt_norm(sp_sig(a));
        let ev = sp_exp(a) - 23 - 2 * t;
        let sig = if ev % 2 != 0 {
            (sg * 2) as u64
        } else {
            sg
        };
        let e2 = if ev % 2 != 0 {
            ev - 1
        } else {
            ev
        };
        let sc = (sig * 0x40_0000_0000) as u64;
        let root = sp_isqrt(sc);
        let rj = if root * root != sc && root % 2 == 0 {
            (root + 1) as u64
        } else {
            root
        };
        sp_nrp(0, e2 / 2 - 19, rj)
    }
}

/// Executable square root; see `sp_f32_sqrt`.
pub fn f32_sqrt(a: u32) -> (r: u32)
    ensures
        r == sp_f32_sqrt(a),
{
    if f32_is_nan(a) {
        return QNAN;
    }
    if a % 0x8000_0000 == 0 {
        return a;
    }
    if a / 0x8000_0000 == 1 {
        return QNAN;
    }
    if (a / 0x0080_0000) % 0x100 == 255 {
        return a;
    }
    let (sig24, e) = unpack(a);
    proof {
        lemma_sig_nonzero(a);
    }
    let (sg, t) = sqrt_norm(sig24);
    let ev: i64 = e - 23 - 2 * (t as i64);
    let odd = ev % 2 != 0;
    let sig: u64 = if odd {
        sg * 2
    } else {
        sg
    };
    let e2: i64 = if odd {
        ev - 1
    } else {
        ev
    };
    proof {
        // Rust's truncated remainder and the euclidean one agree on oddness.
        assert(ev % 2 != 0 <==> (ev as int) % 2 != 0);
        assert((e2 as int) / 2 == e2 / 2);
    }
    let sc: u64 = sig * 0x40_0000_0000;
    let root = isqrt64(sc);
    let rj = if root * root != sc && root % 2 == 0 {
        root + 1
    } else {
        root
    };
    proof {
        assert(sc >= 1);
        assert(rj >= 1) by {
            if root == 0 {
                assert(sc < (0u64 + 1) * (0u64 + 1));
            }
        }
    }
    nrp(0, e2 / 2 - 19, rj)
}

/// Conversion of a `u32` integer to the nearest binary32 value.
pub open spec fn sp_f32_from_u32(n: u32) -> u32 {
    if n == 0 {
        0u32
    } else {
        sp_nrp(0, 0, n as u64)
    }
}

/// Executable integer-to-float conversion; see `sp_f32_from_u32`.
pub fn f32_from_u32(n: u32) -> (r: u32)
    ensures
        r == sp_f32_from_u32(n),
{
    if n == 0 {
        0
    } else {
        nrp(0, 0, n as u64)
    }
}

/// Conversion of a binary32 pattern to `i32` with Rust cast semantics:
/// truncation toward zero, saturation at the `i32` bounds, NaN to 0.
pub open spec fn sp_f32_to_i32(b: u32) -> i32 {
    if sp_is_nan(b) {
        0i32
    } else if sp_is_inf(b) {
        if sp_sign(b) == 0 {
            0x7FFF_FFFFi32
        } else {
            -0x8000_0000i32
        }
    } else {
        let e = sp_exp(b);
        if e < 0 {
            0i32
        } else if e > 31 {
            if sp_sign(b) == 0 {
                0x7FFF_FFFFi32
            } else {
                -0x8000_0000i32
            }
        } else {
            let mag = if e >= 23 {
                (sp_sig(b) * pow2((e - 23) as nat)) as u64
            } else {
                sp_sig(b) / (pow2((23 - e) as nat) as u64)
            };
            if sp_sign(b) == 0 {
                if mag > 0x7FFF_FFFF {
                    0x7FFF_FFFFi32
                } else {
                    mag as i32
                }
            } else {
                if mag >= 0x8000_0000 {
                    -0x8000_0000i32
                } else {
                    (0 - mag) as i32
                }
            }
        }
    }
}

/// Executable float-to-integer conversion; see `sp_f32_to_i32`.
pub fn f32_to_i32(b: u32) -> (r: i32)
    ensures
        r == sp_f32_to_i32(b),
{
    if f32_is_nan(b) {
        return 0;
    }
    let s = b / 0x8000_0000;
    if (b / 0x0080_0000) % 0x100 == 255 {
        return if s == 0 {
            0x7FFF_FFFF
        } else {
            -0x8000_0000
        };
    }
    let (sig24, e) = unpack(b);
    if e < 0 {
        0
    } else if e > 31 {
        if s == 0 {
            0x7FFF_FFFF
        } else {
            -0x8000_0000
        }
    } else {
        let mag: u64 = if e >= 23 {
            let p = pow2u64((e - 23) as u64);
            proof {
                assert(pow2((e - 23) as nat) <= pow2(8)) by {
                    if e - 23 < 8 {
                        lemma_pow2_strictly_increases((e - 23) as nat, 8);
                    }
                }
                lemma2_to64();
                assert(sig24 * pow2((e - 23) as nat) < 0x1_0000_0000_0000) by (nonlinear_arith)
                    requires
                        sig24 < 0x100_0000,
                        pow2((e - 23) as nat) <= 256,
                ;
            }
            sig24 * p
        } else {
            let p = pow2u64((23 - e) as u64);
            proof {
                lemma_pow2_pos((23 - e) as nat);
            }
            sig24 / p
        };
        if s == 0 {
            if mag > 0x7FFF_FFFF {
                0x7FFF_FFFF
            } else {
                mag as i32
            }
        } else {
            if mag >= 0x8000_0000 {
                -0x8000_0000
            } else {
                let mi = mag as i32;
                0 - mi
            }
        }
    }
}

} // verus!
