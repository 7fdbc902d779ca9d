//! Deterministic pseudo-random source: a PCG generator with 128-bit state
//! and stream (the XSL-RR 128/64 output permutation), seeded from a single
//! `u64` by an expansion that feeds a small 64-bit PCG stream into the seed
//! words. Each candidate owns one generator exclusively, so its draw
//! sequence is reproducible from its seed alone.

use vstd::prelude::*;
use vstd::wrapping::{u32_specs, u64_specs, u128_specs};

verus! {

/// Multiplier of the 128-bit linear congruential step.
pub const PCG_MUL: u128 = 0x2360_ED05_1FC6_5DA4_4385_DF64_9FCC_F645;

/// Multiplier of the 64-bit seed-expansion stream.
pub const SEED_MUL: u64 = 6364136223846793005;

/// Increment of the 64-bit seed-expansion stream.
pub const SEED_INC: u64 = 11634580027462260723;

/// The generator: 128 bits of state and an odd 128-bit stream increment.
#[derive(Clone, Copy, PartialEq, Eq, Structural, Debug)]
pub struct Pcg {
    pub state: u128,
    pub inc: u128,
}

/// One step of the 64-bit seed-expansion stream: new state and the 32-bit
/// output word (xorshift then random rotation).
pub open spec fn sp_seed_step(s: u64) -> (u64, u32) {
    let s2 = u64_specs::wrapping_add(u64_specs::wrapping_mul(s, SEED_MUL), SEED_INC);
    let xs = (((s2 >> 18) ^ s2) >> 27) as u32;
    let rot = (s2 >> 59) as u32;
    let x = if rot == 0 {
        xs
    } else {
        (xs >> rot) | (xs << (32 - rot))
    };
    (s2, x)
}

fn seed_step(s: u64) -> (r: (u64, u32))
    ensures
        r == sp_seed_step(s),
{
    let s2 = s.wrapping_mul(SEED_MUL).wrapping_add(SEED_INC);
    let xs = (((s2 >> 18u64) ^ s2) >> 27u64) as u32;
    let rot = (s2 >> 59u64) as u32;
    proof {
        assert(s2 >> 59u64 < 32) by (bit_vector);
    }
    let x = if rot == 0 {
        xs
    } else {
        (xs >> rot) | (xs << (32 - rot))
    };
    (s2, x)
}

/// The initial generator for a seed: eight expansion words become the
/// 128-bit state and stream (the stream is forced odd), and the state is
/// then moved away from its raw value by one add-and-step round.
pub open spec fn sp_from_seed(seed: u64) -> Pcg {
    let (s1, x0) = sp_seed_step(seed);
    let (s2, x1) = sp_seed_step(s1);
    let (s3, x2) = sp_seed_step(s2);
    let (s4, x3) = sp_seed_step(s3);
    let (s5, x4) = sp_seed_step(s4);
    let (s6, x5) = sp_seed_step(s5);
    let (s7, x6) = sp_seed_step(s6);
    let (s8, x7) = sp_seed_step(s7);
    sp_combine(x0, x1, x2, x3, x4, x5, x6, x7)
}

/// Packs the eight expansion words into the generator's state and stream.
pub open spec fn sp_combine(x0: u32, x1: u32, x2: u32, x3: u32, x4: u32, x5: u32, x6: u32,
    x7: u32) -> Pcg {
    let lo = ((x0 as u128) + (x1 as u128) * 0x1_0000_0000) as u128;
    let hi = ((x2 as u128) + (x3 as u128) * 0x1_0000_0000) as u128;
    let st0 = (lo + hi * 0x1_0000_0000_0000_0000) as u128;
    let ilo = ((x4 as u128) + (x5 as u128) * 0x1_0000_0000) as u128;
    let ihi = ((x6 as u128) + (x7 as u128) * 0x1_0000_0000) as u128;
    let inc0 = (ilo + ihi * 0x1_0000_0000_0000_0000) as u128;
    let inc = if inc0 % 2 == 0 {
        (inc0 + 1) as u128
    } else {
        inc0
    };
    let st1 = u128_specs::wrapping_add(st0, inc);
    let st2 = u128_specs::wrapping_add(u128_specs::wrapping_mul(st1, PCG_MUL), inc);
    Pcg { state: st2, inc }
}

/// Executable counterpart of `sp_combine`.
fn combine(x0: u32, x1: u32, x2: u32, x3: u32, x4: u32, x5: u32, x6: u32, x7: u32) -> (r: Pcg)
    ensures
        r == sp_combine(x0, x1, x2, x3, x4, x5, x6, x7),
{
    let lo = (x0 as u128) + (x1 as u128) * 0x1_0000_0000;
    let hi = (x2 as u128) + (x3 as u128) * 0x1_0000_0000;
    let st0 = lo + hi * 0x1_0000_0000_0000_0000;
    let ilo = (x4 as u128) + (x5 as u128) * 0x1_0000_0000;
    let ihi = (x6 as u128) + (x7 as u128) * 0x1_0000_0000;
    let inc0 = ilo + ihi * 0x1_0000_0000_0000_0000;
    let inc = if inc0 % 2 == 0 {
        inc0 + 1
    } else {
        inc0
    };
    let st1 = st0.wrapping_add(inc);
    let st2 = st1.wrapping_mul(PCG_MUL).wrapping_add(inc);
    Pcg { state: st2, inc }
}

/// One generator step: the LCG advances, and the advanced state is folded
/// to 64 bits by xoring its halves and rotating by its top six bits.
pub open spec fn sp_next(g: Pcg) -> (Pcg, u64) {
    let s2 = u128_specs::wrapping_add(u128_specs::wrapping_mul(g.state, PCG_MUL), g.inc);
    let rot = (s2 >> 122) as u32;
    let xsl = ((s2 >> 64) as u64) ^ (s2 as u64);
    let out = if rot == 0 {
        xsl
    } else {
        (xsl >> rot) | (xsl << (64 - rot))
    };
    (Pcg { state: s2, inc: g.inc }, out)
}

/// The full draw sequence is a function of the seed alone; `sp_next`
/// composed with `sp_from_seed` pins every future draw.
impl Pcg {
    /// Builds the generator for a seed; see `sp_from_seed`.
    pub fn from_seed(seed: u64) -> (r: Pcg)
        ensures
            r == sp_from_seed(seed),
    {
        let (s1, x0) = seed_step(seed);
        let (s2, x1) = seed_step(s1);
        let (s3, x2) = seed_step(s2);
        let (s4, x3) = seed_step(s3);
        let (s5, x4) = seed_step(s4);
        let (s6, x5) = seed_step(s5);
        let (s7, x6) = seed_step(s6);
        let (_s8, x7) = seed_step(s7);
        combine(x0, x1, x2, x3, x4, x5, x6, x7)
    }

    /// Draws the next 64-bit value; see `sp_next`.
    pub fn next_u64(&mut self) -> (r: u64)
        ensures
            (*final(self), r) == sp_next(*old(self)),
    {
        let s2 = self.state.wrapping_mul(PCG_MUL).wrapping_add(self.inc);
        let rot = (s2 >> 122u128) as u32;
        let xsl = ((s2 >> 64u128) as u64) ^ (s2 as u64);
        proof {
            assert(s2 >> 122u128 < 64) by (bit_vector);
        }
        let out = if rot == 0 {
            xsl
        } else {
            (xsl >> rot) | (xsl << (64 - rot))
        };
        self.state = s2;
        out
    }
}

/// The next 64-bit draw truncated to its low 32 bits.
pub open spec fn sp_next_u32(g: Pcg) -> (Pcg, u32) {
    let (g2, v) = sp_next(g);
    (g2, v as u32)
}

/// A uniform value in [0, 1): the top 24 bits of a 32-bit draw, scaled by
/// 2^-24 (an exact product).
pub open spec fn sp_next_f32_bits(g: Pcg) -> (Pcg, u32) {
    let (g2, v) = sp_next_u32(g);
    (g2, crate::softfloat::sp_f32_mul(crate::softfloat::sp_f32_from_u32(v >> 8), 0x3380_0000))
}

impl Pcg {
    /// Draws a uniform binary32 value in [0, 1); see `sp_next_f32_bits`.
    pub fn next_f32_bits(&mut self) -> (r: u32)
        ensures
            (*final(self), r) == sp_next_f32_bits(*old(self)),
    {
        let v = self.next_u64() as u32;
        crate::softfloat::f32_mul(crate::softfloat::f32_from_u32(v >> 8u32), 0x3380_0000)
    }
}

/// One attempt at a uniform draw in [0, range): the draw is widened, and
/// the low half of the product decides acceptance against the zone bound
/// (which rejects only the biased tail).
pub open spec fn sp_range_try(g: Pcg, range: u32, zone: u32) -> (Pcg, bool, u32) {
    let (g2, v) = sp_next_u32(g);
    let t = ((v as u64) * (range as u64)) as u64;
    let hi = (t >> 32u64) as u32;
    let lo = t as u32;
    (g2, lo <= zone, hi)
}

/// Uniform draw in [0, range) with bounded retries; after the last retry
/// the attempt's value is taken as it stands.
pub open spec fn sp_range_loop(g: Pcg, range: u32, zone: u32, fuel: nat) -> (Pcg, u32)
    decreases fuel,
{
    let (g2, ok, hi) = sp_range_try(g, range, zone);
    if ok || fuel == 0 {
        (g2, hi)
    } else {
        sp_range_loop(g2, range, zone, (fuel - 1) as nat)
    }
}

/// A draw uniform in [low, high): Lemire's widening-multiply method with
/// the standard power-of-two zone bound.
pub open spec fn sp_gen_range(g: Pcg, low: u32, high: u32) -> (Pcg, u32) {
    let range = (high - low) as u32;
    let lz = vstd::std_specs::bits::u32_leading_zeros(range);
    let zone = u32_specs::wrapping_sub(range << lz, 1u32);
    let (g2, hi) = sp_range_loop(g, range, zone, 64);
    (g2, (low + hi) as u32)
}

fn range_loop(g: &mut Pcg, range: u32, zone: u32, fuel: u64) -> (r: u32)
    requires
        range >= 1,
    ensures
        (*final(g), r) == sp_range_loop(*old(g), range, zone, fuel as nat),
        r < range,
    decreases fuel,
{
    let v = g.next_u64() as u32;
    proof {
        assert((v as u64) * (range as u64) < 0x1_0000_0000_0000_0000) by (nonlinear_arith)
            requires
                v < 0x1_0000_0000u64,
                range < 0x1_0000_0000u64,
        ;
    }
    let t = (v as u64) * (range as u64);
    let hi = (t >> 32u64) as u32;
    let lo = t as u32;
    proof {
        let r64 = range as u64;
        let v64 = v as u64;
        assert(((v64 * r64) as u64) >> 32u64 < r64) by (bit_vector)
            requires
                v64 < 0x1_0000_0000,
                1 <= r64 < 0x1_0000_0000,
        ;
    }
    if lo <= zone || fuel == 0 {
        hi
    } else {
        range_loop(g, range, zone, fuel - 1)
    }
}

impl Pcg {
    /// Draws a value uniform in [low, high); see `sp_gen_range`.
    pub fn gen_range(&mut self, low: u32, high: u32) -> (r: u32)
        requires
            low < high,
        ensures
            (*final(self), r) == sp_gen_range(*old(self), low, high),
            low <= r < high,
    {
        let range = high - low;
        let lz = range.leading_zeros();
        proof {
            broadcast use vstd::std_specs::bits::axiom_u32_leading_zeros;

            assert(lz < 32);
        }
        let zone = (range << lz).wrapping_sub(1);
        let hi = range_loop(self, range, zone, 64);
        low + hi
    }
}

} // verus!
