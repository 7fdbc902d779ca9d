//! Cross-checks of the software binary32 arithmetic against the host's
//! hardware IEEE-754 arithmetic, over special values and pseudo-random
//! patterns.

use rand::RngCore;
use rand::SeedableRng;
use rsqrt_evolve::softfloat::{
    f32_add, f32_div, f32_from_u32, f32_mul, f32_sqrt, f32_sub, f32_to_i32,
};

fn interesting() -> Vec<u32> {
    vec![
        0x0000_0000, // +0
        0x8000_0000, // -0
        0x3F80_0000, // 1.0
        0xBF80_0000, // -1.0
        0x7F80_0000, // +inf
        0xFF80_0000, // -inf
        0x7FC0_0000, // qNaN
        0x7F80_0001, // sNaN
        0x0000_0001, // min subnormal
        0x8000_0001,
        0x007F_FFFF, // max subnormal
        0x0080_0000, // min normal
        0x7F7F_FFFF, // max normal
        0xFF7F_FFFF,
        0x3F7F_FFFF,
        0x3F80_0001,
        0x5F37_59DF,
        0x0100_0000,
        0x3400_0000,
        0x7F00_0000,
        0x0012_3456,
        0x4049_0FDB,
    ]
}

fn agree(ours: u32, real: f32) -> bool {
    if real.is_nan() {
        f32::from_bits(ours).is_nan()
    } else {
        ours == real.to_bits()
    }
}

#[test]
fn mul_matches_hardware() {
    let mut rng = rand_pcg::Pcg64::seed_from_u64(1);
    let mut pats = interesting();
    for _ in 0..20000 {
        pats.push(rng.next_u64() as u32);
    }
    for i in 0..pats.len() {
        let a = pats[i];
        let b = pats[(i * 7 + 13) % pats.len()];
        let real = f32::from_bits(a) * f32::from_bits(b);
        assert!(
            agree(f32_mul(a, b), real),
            "mul {a:#010x} {b:#010x}: got {:#010x}, want {:#010x}",
            f32_mul(a, b),
            real.to_bits()
        );
    }
}

#[test]
fn add_sub_match_hardware() {
    let mut rng = rand_pcg::Pcg64::seed_from_u64(2);
    let mut pats = interesting();
    for _ in 0..20000 {
        pats.push(rng.next_u64() as u32);
    }
    // Also exercise nearby-magnitude pairs where cancellation is strongest.
    for i in 0..pats.len() {
        let a = pats[i];
        let b = pats[(i * 11 + 5) % pats.len()];
        let c = a ^ 0x8000_0000 ^ (i as u32 & 0xF);
        for (x, y) in [(a, b), (a, c)] {
            let real_add = f32::from_bits(x) + f32::from_bits(y);
            assert!(
                agree(f32_add(x, y), real_add),
                "add {x:#010x} {y:#010x}: got {:#010x}, want {:#010x}",
                f32_add(x, y),
                real_add.to_bits()
            );
            let real_sub = f32::from_bits(x) - f32::from_bits(y);
            assert!(
                agree(f32_sub(x, y), real_sub),
                "sub {x:#010x} {y:#010x}: got {:#010x}, want {:#010x}",
                f32_sub(x, y),
                real_sub.to_bits()
            );
        }
    }
}

#[test]
fn div_matches_hardware() {
    let mut rng = rand_pcg::Pcg64::seed_from_u64(3);
    let mut pats = interesting();
    for _ in 0..20000 {
        pats.push(rng.next_u64() as u32);
    }
    for i in 0..pats.len() {
        let a = pats[i];
        let b = pats[(i * 5 + 3) % pats.len()];
        let real = f32::from_bits(a) / f32::from_bits(b);
        assert!(
            agree(f32_div(a, b), real),
            "div {a:#010x} {b:#010x}: got {:#010x}, want {:#010x}",
            f32_div(a, b),
            real.to_bits()
        );
    }
}

#[test]
fn sqrt_matches_hardware() {
    let mut rng = rand_pcg::Pcg64::seed_from_u64(4);
    let mut pats = interesting();
    for _ in 0..20000 {
        pats.push(rng.next_u64() as u32);
    }
    for a in pats {
        let real = f32::from_bits(a).sqrt();
        assert!(
            agree(f32_sqrt(a), real),
            "sqrt {a:#010x}: got {:#010x}, want {:#010x}",
            f32_sqrt(a),
            real.to_bits()
        );
    }
}

#[test]
fn conversions_match_hardware() {
    let mut rng = rand_pcg::Pcg64::seed_from_u64(5);
    let mut pats = interesting();
    for _ in 0..20000 {
        pats.push(rng.next_u64() as u32);
    }
    for a in pats {
        assert_eq!(f32_from_u32(a), (a as f32).to_bits(), "from_u32 {a:#010x}");
        assert_eq!(f32_to_i32(a), f32::from_bits(a) as i32, "to_i32 {a:#010x}");
    }
}
