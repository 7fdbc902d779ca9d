//! Cross-checks of the crate's deterministic generator against the PCG
//! crate it models, bit for bit: seeding, the raw 64-bit stream, the
//! uniform-in-[0,1) draw and the bounded-range draw.

use rand::Rng as _;
use rand::RngCore;
use rand::SeedableRng;
use rsqrt_evolve::rng::Pcg;

#[test]
fn raw_stream_matches_pcg64() {
    for seed in [0u64, 1, 2, 0x1337, 0xC0FFEE, u64::MAX, 0xDEAD_BEEF_CAFE_F00D] {
        let mut ours = Pcg::from_seed(seed);
        let mut reference = rand_pcg::Pcg64::seed_from_u64(seed);
        for i in 0..1000 {
            assert_eq!(
                ours.next_u64(),
                reference.next_u64(),
                "seed {seed:#x}, draw {i}"
            );
        }
    }
}

#[test]
fn uniform_f32_matches_rand() {
    let mut ours = Pcg::from_seed(42);
    let mut reference = rand_pcg::Pcg64::seed_from_u64(42);
    for i in 0..1000 {
        let want: f32 = reference.gen();
        assert_eq!(ours.next_f32_bits(), want.to_bits(), "draw {i}");
    }
}

#[test]
fn normal_draws_track_the_crate_sampler() {
    // The inverse-distribution sampler must follow the same standard
    // normal law as the PCG-fed ziggurat sampler; compare the empirical
    // distribution functions of the two at several quantiles.
    let n = 40000;
    let checkpoints = [-1.5f32, -0.75, -0.25, 0.25, 0.75, 1.5];
    let mut ours_below = [0usize; 6];
    let mut theirs_below = [0usize; 6];
    let mut ours = Pcg::from_seed(123);
    let mut theirs = rand_pcg::Pcg64::seed_from_u64(321);
    for _ in 0..n {
        let a = f32::from_bits(ours.next_normal());
        let b: f32 = theirs.sample(rand_distr::StandardNormal);
        for (i, z) in checkpoints.iter().enumerate() {
            if a < *z {
                ours_below[i] += 1;
            }
            if b < *z {
                theirs_below[i] += 1;
            }
        }
    }
    for i in 0..checkpoints.len() {
        let fa = ours_below[i] as f64 / n as f64;
        let fb = theirs_below[i] as f64 / n as f64;
        assert!(
            (fa - fb).abs() < 0.012,
            "quantile {}: {fa} vs {fb}",
            checkpoints[i]
        );
    }
}

#[test]
fn gen_range_matches_rand() {
    let mut ours = Pcg::from_seed(7);
    let mut reference = rand_pcg::Pcg64::seed_from_u64(7);
    for i in 0..1000 {
        let want: u32 = reference.gen_range(0x5f00_0000..0x5f60_0000);
        assert_eq!(ours.gen_range(0x5f00_0000, 0x5f60_0000), want, "draw {i}");
    }
    for i in 0..1000 {
        let want: u32 = reference.gen_range(17..29);
        assert_eq!(ours.gen_range(17, 29), want, "small draw {i}");
    }
}
