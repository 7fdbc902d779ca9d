//! The candidate approximation and its fitness evaluation.
//!
//! A candidate holds a coefficient triple `(c1, c2, c3)`: `c1` is the raw
//! integer constant of the reciprocal-square-root bit trick, `c2` and `c3`
//! are the binary32 correction constants (held as bit patterns). Fitness is
//! measured over the domain [1, 4): a coarse 512-point scan gives the mean
//! error and candidate peak regions, and the worst regions are refined by
//! bisection on the sign of the error gradient.

use vstd::prelude::*;
use vstd::wrapping::u32_specs;
use crate::fbits::{
    sp_abs, sp_is_nan, sp_key, sp_lt, sp_penalize, f32_abs, f32_key_lt, f32_lt, f32_penalize,
};
use crate::softfloat::{
    sp_f32_add, sp_f32_div, sp_f32_from_u32, sp_f32_mul, sp_f32_sqrt, sp_f32_sub, sp_f32_to_i32,
    f32_add, f32_div, f32_from_u32, f32_mul, f32_sqrt, f32_sub, f32_to_i32,
};
use crate::rng::{Pcg, sp_from_seed, sp_next_f32_bits, sp_gen_range};
use crate::gauss::{sp_next_normal, ONE, HALF};

verus! {

/// 2.0
pub const TWO: u32 = 0x4000_0000;

/// 3.0
pub const THREE: u32 = 0x4040_0000;

/// 5.0
pub const FIVE: u32 = 0x40A0_0000;

/// 512.0: the number of coarse grid points.
pub const NDIV_F: u32 = 0x4400_0000;

/// The number of coarse grid points.
pub const NDIV: usize = 512;

/// 3/512: the grid spacing, and the half-width of a refinement bracket.
pub const GRID_DELTA: u32 = 0x3BC0_0000;

/// 2^-13 (1024 units of machine epsilon): the finite-difference step of the
/// gradient probe.
pub const DX: u32 = 0x3900_0000;

/// Twice the machine epsilon: the bracket-width floor of the bisection.
pub const EPS2: u32 = 0x3480_0000;

/// 0.01: scale of the proportional `c1` perturbation.
pub const CENT: u32 = 0x3C23_D70A;

/// 0.1: scale of the big-jump multiplicative noise.
pub const TENTH: u32 = 0x3DCC_CCCD;

/// 0.25, 0.5, 0.75: the starting-point selector thresholds.
pub const Q25: u32 = 0x3E80_0000;

/// 0.5 as a selector threshold.
pub const Q50: u32 = 0x3F00_0000;

/// 0.75 as a selector threshold.
pub const Q75: u32 = 0x3F40_0000;

/// 0.3, 0.6, 0.9: the mutation strategy thresholds.
pub const T03: u32 = 0x3E99_999A;

/// 0.6 as a strategy threshold.
pub const T06: u32 = 0x3F19_999A;

/// 0.9 as a strategy threshold.
pub const T09: u32 = 0x3F66_6666;

/// Iteration cap of the bisection; the bracket floor is reached in 25 to 30
/// steps, so the cap only bounds the loop.
pub const PEAK_FUEL: u64 = 64;

/// One candidate: a coefficient triple, its private generator, and the
/// cached fitness (worst error, its location, and mean error), all as
/// binary32 bit patterns.
#[derive(Clone, Copy, PartialEq, Eq, Structural, Debug)]
pub struct Approx {
    /// The candidate's own deterministic generator, never shared.
    pub rng: Pcg,
    /// The integer constant of the bit trick.
    pub c1: u32,
    /// The multiplicative correction constant.
    pub c2: u32,
    /// The Newton-step constant.
    pub c3: u32,
    /// Worst error found over the domain.
    pub max_error: u32,
    /// x position where the worst error occurs.
    pub max_error_loc: u32,
    /// Mean error over the coarse grid.
    pub rms_error: u32,
}

/// The fast reciprocal square root: reinterpret x's bits, apply the shift
/// trick with `c1` (wrapping, as a raw bit operation), reinterpret back and
/// take one Newton step scaled by `c2` and `c3`.
pub open spec fn sp_inv_sqrt(x: u32, c1: u32, c2: u32, c3: u32) -> u32 {
    let y0 = u32_specs::wrapping_sub(c1, x >> 1u32);
    let t1 = sp_f32_mul(x, y0);
    let t2 = sp_f32_mul(t1, y0);
    let t3 = sp_f32_sub(c3, t2);
    let t4 = sp_f32_mul(y0, t3);
    sp_f32_mul(c2, t4)
}

/// Executable fast reciprocal square root; see `sp_inv_sqrt`.
pub fn inv_sqrt(x: u32, c1: u32, c2: u32, c3: u32) -> (r: u32)
    ensures
        r == sp_inv_sqrt(x, c1, c2, c3),
{
    let y0 = c1.wrapping_sub(x >> 1u32);
    let t1 = f32_mul(x, y0);
    let t2 = f32_mul(t1, y0);
    let t3 = f32_sub(c3, t2);
    let t4 = f32_mul(y0, t3);
    f32_mul(c2, t4)
}

/// Relative error of the approximation against `1/sqrt(x)`, with any NaN
/// (domain violation) mapped to the finite penalty, so that every error
/// value can be compared and sorted.
pub open spec fn sp_err(x: u32, c1: u32, c2: u32, c3: u32) -> u32 {
    let ya = sp_inv_sqrt(x, c1, c2, c3);
    let yt = sp_f32_div(ONE, sp_f32_sqrt(x));
    sp_penalize(sp_f32_div(sp_abs(sp_f32_sub(ya, yt)), yt))
}

/// Executable error; see `sp_err`.
pub fn inv_sqrt_error(x: u32, c1: u32, c2: u32, c3: u32) -> (r: u32)
    ensures
        r == sp_err(x, c1, c2, c3),
        !sp_is_nan(r),
{
    let ya = inv_sqrt(x, c1, c2, c3);
    let yt = f32_div(ONE, f32_sqrt(x));
    f32_penalize(f32_div(f32_abs(f32_sub(ya, yt)), yt))
}

/// The unscaled absolute-error variant, with the same NaN-to-penalty
/// mapping. The optimizer itself measures the relative error throughout
/// (the one consistent choice of this crate); this variant serves callers
/// that run in the absolute mode.
pub open spec fn sp_err_abs(x: u32, c1: u32, c2: u32, c3: u32) -> u32 {
    let ya = sp_inv_sqrt(x, c1, c2, c3);
    let yt = sp_f32_div(ONE, sp_f32_sqrt(x));
    sp_penalize(sp_abs(sp_f32_sub(ya, yt)))
}

/// Executable absolute error; see `sp_err_abs`.
pub fn inv_sqrt_error_abs(x: u32, c1: u32, c2: u32, c3: u32) -> (r: u32)
    ensures
        r == sp_err_abs(x, c1, c2, c3),
        !sp_is_nan(r),
{
    let ya = inv_sqrt(x, c1, c2, c3);
    let yt = f32_div(ONE, f32_sqrt(x));
    f32_penalize(f32_abs(f32_sub(ya, yt)))
}

/// Sign probe of the error gradient at `x`: the difference of the error a
/// small step above and below `x` (unscaled; only its sign is used).
pub open spec fn sp_slope(x: u32, c1: u32, c2: u32, c3: u32) -> u32 {
    let y1 = sp_err(sp_f32_sub(x, DX), c1, c2, c3);
    let y2 = sp_err(sp_f32_add(x, DX), c1, c2, c3);
    sp_f32_sub(y2, y1)
}

/// Executable gradient probe; see `sp_slope`.
pub fn error_slope(x: u32, c1: u32, c2: u32, c3: u32) -> (r: u32)
    ensures
        r == sp_slope(x, c1, c2, c3),
{
    let y1 = inv_sqrt_error(f32_sub(x, DX), c1, c2, c3);
    let y2 = inv_sqrt_error(f32_add(x, DX), c1, c2, c3);
    f32_sub(y2, y1)
}

/// Bisection on the sign of the midpoint gradient within a bracket assumed
/// to enclose one error maximum: a negative gradient sends the right bound
/// to the midpoint, a positive one sends the left bound; the midpoint and
/// its error are returned once the bracket width reaches the epsilon floor,
/// the gradient is exactly zero, or the iteration cap runs out.
pub open spec fn sp_peak(l: u32, r: u32, c1: u32, c2: u32, c3: u32, fuel: nat) -> (u32, u32)
    decreases fuel,
{
    let m = sp_f32_add(l, sp_f32_mul(HALF, sp_f32_sub(r, l)));
    if fuel == 0 {
        (m, sp_err(m, c1, c2, c3))
    } else {
        let w = sp_f32_sub(r, l);
        if crate::fbits::sp_le(w, EPS2) {
            (m, sp_err(m, c1, c2, c3))
        } else {
            let sl = sp_slope(m, c1, c2, c3);
            if sp_lt(sl, 0u32) {
                sp_peak(l, m, c1, c2, c3, (fuel - 1) as nat)
            } else if sp_lt(0u32, sl) {
                sp_peak(m, r, c1, c2, c3, (fuel - 1) as nat)
            } else {
                (m, sp_err(m, c1, c2, c3))
            }
        }
    }
}

/// Executable peak finder; see `sp_peak`.
pub fn peak_find_x(l: u32, r: u32, c1: u32, c2: u32, c3: u32, fuel: u64) -> (res: (u32, u32))
    ensures
        res == sp_peak(l, r, c1, c2, c3, fuel as nat),
        !sp_is_nan(res.1),
    decreases fuel,
{
    let m = f32_add(l, f32_mul(HALF, f32_sub(r, l)));
    if fuel == 0 {
        let e = inv_sqrt_error(m, c1, c2, c3);
        (m, e)
    } else {
        let w = f32_sub(r, l);
        if crate::fbits::f32_le(w, EPS2) {
            let e = inv_sqrt_error(m, c1, c2, c3);
            (m, e)
        } else {
            let sl = error_slope(m, c1, c2, c3);
            if f32_lt(sl, 0) {
                peak_find_x(l, m, c1, c2, c3, fuel - 1)
            } else if f32_lt(0, sl) {
                peak_find_x(m, r, c1, c2, c3, fuel - 1)
            } else {
                let e = inv_sqrt_error(m, c1, c2, c3);
                (m, e)
            }
        }
    }
}

/// The x position of grid point `i`: `1 + i * 3 / 512`.
pub open spec fn sp_grid_x(i: u32) -> u32 {
    sp_f32_add(ONE, sp_f32_div(sp_f32_mul(sp_f32_from_u32(i), THREE), NDIV_F))
}

/// The first `n` grid samples, each an (x, error) pair.
pub open spec fn sp_grid(c1: u32, c2: u32, c3: u32, n: nat) -> Seq<(u32, u32)>
    decreases n,
{
    if n == 0 {
        Seq::empty()
    } else {
        let x = sp_grid_x((n - 1) as u32);
        sp_grid(c1, c2, c3, (n - 1) as nat).push((x, sp_err(x, c1, c2, c3)))
    }
}

/// Left fold of the first `n` sample errors, starting from +0.
pub open spec fn sp_esum(s: Seq<(u32, u32)>, n: nat) -> u32
    decreases n,
{
    if n == 0 {
        0u32
    } else {
        sp_f32_add(sp_esum(s, (n - 1) as nat), s[n - 1].1)
    }
}

/// Stable insertion of a sample into a sequence sorted descending by the
/// error's total-order key.
pub open spec fn sp_ins_desc(s: Seq<(u32, u32)>, x: (u32, u32)) -> Seq<(u32, u32)>
    decreases s.len(),
{
    if s.len() == 0 {
        seq![x]
    } else if sp_key(x.1) > sp_key(s.last().1) {
        sp_ins_desc(s.drop_last(), x).push(s.last())
    } else {
        s.push(x)
    }
}

/// Stable insertion sort, descending by the error's total-order key.
pub open spec fn sp_sort_desc(s: Seq<(u32, u32)>) -> Seq<(u32, u32)>
    decreases s.len(),
{
    if s.len() == 0 {
        s
    } else {
        sp_ins_desc(sp_sort_desc(s.drop_last()), s.last())
    }
}

fn ins_desc(v: Vec<(u32, u32)>, x: (u32, u32)) -> (r: Vec<(u32, u32)>)
    ensures
        r@ == sp_ins_desc(v@, x),
    decreases v.len(),
{
    let mut v = v;
    if v.len() == 0 {
        v.push(x);
        v
    } else {
        let lastv = v[v.len() - 1];
        if f32_key_lt(lastv.1, x.1) {
            let l = v.pop().unwrap();
            let mut s = ins_desc(v, x);
            s.push(l);
            s
        } else {
            v.push(x);
            v
        }
    }
}

fn sort_desc(v: Vec<(u32, u32)>) -> (r: Vec<(u32, u32)>)
    ensures
        r@ == sp_sort_desc(v@),
    decreases v.len(),
{
    let mut v = v;
    if v.len() == 0 {
        v
    } else {
        let x = v.pop().unwrap();
        let s = sort_desc(v);
        ins_desc(s, x)
    }
}

/// Refinement of one candidate peak region: a bracket one grid spacing to
/// each side of the sample; if the gradient truly changes sign from
/// positive to negative across it, the bisection refines the peak and the
/// running best is updated, otherwise the coarse values stand.
#[verifier::opaque]
pub open spec fn sp_refine(e: (u32, u32), mx: u32, loc: u32, c1: u32, c2: u32, c3: u32) -> (
    u32,
    u32,
) {
    let x1 = sp_f32_sub(e.0, GRID_DELTA);
    let x2 = sp_f32_add(e.0, GRID_DELTA);
    if sp_lt(0u32, sp_slope(x1, c1, c2, c3)) && sp_lt(sp_slope(x2, c1, c2, c3), 0u32) {
        let pk = sp_peak(x1, x2, c1, c2, c3, PEAK_FUEL as nat);
        if sp_lt(mx, pk.1) {
            (pk.1, pk.0)
        } else {
            (mx, loc)
        }
    } else {
        (mx, loc)
    }
}

fn refine(e: (u32, u32), mx: u32, loc: u32, c1: u32, c2: u32, c3: u32) -> (r: (u32, u32))
    ensures
        r == sp_refine(e, mx, loc, c1, c2, c3),
        !sp_is_nan(mx) ==> !sp_is_nan(r.0),
{
    proof {
        reveal(sp_refine);
    }
    let x1 = f32_sub(e.0, GRID_DELTA);
    let x2 = f32_add(e.0, GRID_DELTA);
    let s1 = error_slope(x1, c1, c2, c3);
    let s2 = error_slope(x2, c1, c2, c3);
    if f32_lt(0, s1) && f32_lt(s2, 0) {
        let pk = peak_find_x(x1, x2, c1, c2, c3, PEAK_FUEL);
        if f32_lt(mx, pk.1) {
            (pk.1, pk.0)
        } else {
            (mx, loc)
        }
    } else {
        (mx, loc)
    }
}

/// The fitness of a coefficient triple: worst error, its location, and the
/// penalized mean error, from the coarse scan followed by refinement of the
/// four worst regions.
#[verifier::opaque]
pub open spec fn sp_evaluate(c1: u32, c2: u32, c3: u32) -> (u32, u32, u32) {
    let gs = sp_grid(c1, c2, c3, NDIV as nat);
    let rms = sp_penalize(sp_f32_div(sp_esum(gs, NDIV as nat), NDIV_F));
    let so = sp_sort_desc(gs);
    let m0 = so[0].1;
    let l0 = so[0].0;
    let (m1, l1) = sp_refine(so[0], m0, l0, c1, c2, c3);
    let (m2, l2) = sp_refine(so[1], m1, l1, c1, c2, c3);
    let (m3, l3) = sp_refine(so[2], m2, l2, c1, c2, c3);
    let (m4, l4) = sp_refine(so[3], m3, l3, c1, c2, c3);
    (m4, l4, rms)
}

/// Every sample error of the grid is a penalized value, hence not NaN.
proof fn lemma_grid_non_nan(c1: u32, c2: u32, c3: u32, n: nat)
    ensures
        forall|j: int|
            0 <= j < sp_grid(c1, c2, c3, n).len() ==> !sp_is_nan(
                #[trigger] sp_grid(c1, c2, c3, n)[j].1,
            ),
        sp_grid(c1, c2, c3, n).len() == n,
    decreases n,
{
    if n > 0 {
        lemma_grid_non_nan(c1, c2, c3, (n - 1) as nat);
    }
}

/// Insertion keeps the length and the all-errors-non-NaN property.
proof fn lemma_ins_desc_non_nan(s: Seq<(u32, u32)>, x: (u32, u32))
    requires
        forall|j: int| 0 <= j < s.len() ==> !sp_is_nan(#[trigger] s[j].1),
        !sp_is_nan(x.1),
    ensures
        sp_ins_desc(s, x).len() == s.len() + 1,
        forall|j: int| 0 <= j < s.len() + 1 ==> !sp_is_nan(#[trigger] sp_ins_desc(s, x)[j].1),
    decreases s.len(),
{
    if s.len() == 0 {
    } else if sp_key(x.1) > sp_key(s.last().1) {
        assert(forall|j: int|
            0 <= j < s.drop_last().len() ==> !sp_is_nan(#[trigger] s.drop_last()[j].1));
        lemma_ins_desc_non_nan(s.drop_last(), x);
    } else {
    }
}

/// Sorting keeps the length and the all-errors-non-NaN property.
proof fn lemma_sort_desc_non_nan(s: Seq<(u32, u32)>)
    requires
        forall|j: int| 0 <= j < s.len() ==> !sp_is_nan(#[trigger] s[j].1),
    ensures
        sp_sort_desc(s).len() == s.len(),
        forall|j: int| 0 <= j < s.len() ==> !sp_is_nan(#[trigger] sp_sort_desc(s)[j].1),
    decreases s.len(),
{
    if s.len() > 0 {
        assert(forall|j: int|
            0 <= j < s.drop_last().len() ==> !sp_is_nan(#[trigger] s.drop_last()[j].1));
        lemma_sort_desc_non_nan(s.drop_last());
        lemma_ins_desc_non_nan(sp_sort_desc(s.drop_last()), s.last());
    }
}

/// Executable fitness evaluation; see `sp_evaluate`. The result never
/// holds a NaN in the worst-error or mean-error slot, so fitness values
/// always sort.
pub fn evaluate(c1: u32, c2: u32, c3: u32) -> (r: (u32, u32, u32))
    ensures
        r == sp_evaluate(c1, c2, c3),
        !sp_is_nan(r.0),
        !sp_is_nan(r.2),
{
    proof {
        reveal(sp_evaluate);
    }
    let mut errs: Vec<(u32, u32)> = Vec::new();
    let mut i: usize = 0;
    while i < NDIV
        invariant
            errs@ == sp_grid(c1, c2, c3, i as nat),
            i <= NDIV,
        decreases NDIV - i,
    {
        let xf = f32_add(ONE, f32_div(f32_mul(f32_from_u32(i as u32), THREE), NDIV_F));
        let e = inv_sqrt_error(xf, c1, c2, c3);
        errs.push((xf, e));
        i = i + 1;
    }
    let mut sum: u32 = 0;
    let mut j: usize = 0;
    while j < NDIV
        invariant
            errs@ == sp_grid(c1, c2, c3, NDIV as nat),
            sum == sp_esum(errs@, j as nat),
            j <= NDIV,
        decreases NDIV - j,
    {
        proof {
            lemma_grid_non_nan(c1, c2, c3, NDIV as nat);
        }
        sum = f32_add(sum, errs[j].1);
        j = j + 1;
    }
    let rms = f32_penalize(f32_div(sum, NDIV_F));
    proof {
        lemma_grid_non_nan(c1, c2, c3, NDIV as nat);
        lemma_sort_desc_non_nan(errs@);
    }
    let so = sort_desc(errs);
    let m0 = so[0].1;
    let l0 = so[0].0;
    let (m1, l1) = refine(so[0], m0, l0, c1, c2, c3);
    let (m2, l2) = refine(so[1], m1, l1, c1, c2, c3);
    let (m3, l3) = refine(so[2], m2, l2, c1, c2, c3);
    let (m4, l4) = refine(so[3], m3, l3, c1, c2, c3);
    (m4, l4, rms)
}

/// The bisection's reported error is always a grid or refined error value,
/// hence penalized and never NaN.
proof fn lemma_peak_non_nan(l: u32, r: u32, c1: u32, c2: u32, c3: u32, fuel: nat)
    ensures
        !sp_is_nan(sp_peak(l, r, c1, c2, c3, fuel).1),
    decreases fuel,
{
    if fuel > 0 {
        let m = sp_f32_add(l, sp_f32_mul(HALF, sp_f32_sub(r, l)));
        let w = sp_f32_sub(r, l);
        if !crate::fbits::sp_le(w, EPS2) {
            let sl = sp_slope(m, c1, c2, c3);
            if sp_lt(sl, 0u32) {
                lemma_peak_non_nan(l, m, c1, c2, c3, (fuel - 1) as nat);
            } else if sp_lt(0u32, sl) {
                lemma_peak_non_nan(m, r, c1, c2, c3, (fuel - 1) as nat);
            }
        }
    }
}

/// Refinement keeps the worst error free of NaN.
proof fn lemma_refine_non_nan(e: (u32, u32), mx: u32, loc: u32, c1: u32, c2: u32, c3: u32)
    requires
        !sp_is_nan(mx),
    ensures
        !sp_is_nan(sp_refine(e, mx, loc, c1, c2, c3).0),
{
    reveal(sp_refine);
    let x1 = sp_f32_sub(e.0, GRID_DELTA);
    let x2 = sp_f32_add(e.0, GRID_DELTA);
    lemma_peak_non_nan(x1, x2, c1, c2, c3, PEAK_FUEL as nat);
}

/// The fitness of any coefficient triple holds no NaN in its worst-error
/// or mean-error slot.
pub proof fn lemma_evaluate_wf(c1: u32, c2: u32, c3: u32)
    ensures
        !sp_is_nan(sp_evaluate(c1, c2, c3).0),
        !sp_is_nan(sp_evaluate(c1, c2, c3).2),
{
    reveal(sp_evaluate);
    let gs = sp_grid(c1, c2, c3, NDIV as nat);
    lemma_grid_non_nan(c1, c2, c3, NDIV as nat);
    lemma_sort_desc_non_nan(gs);
    let so = sp_sort_desc(gs);
    let m0 = so[0].1;
    let l0 = so[0].0;
    let (m1, l1) = sp_refine(so[0], m0, l0, c1, c2, c3);
    lemma_refine_non_nan(so[0], m0, l0, c1, c2, c3);
    let (m2, l2) = sp_refine(so[1], m1, l1, c1, c2, c3);
    lemma_refine_non_nan(so[1], m1, l1, c1, c2, c3);
    let (m3, l3) = sp_refine(so[2], m2, l2, c1, c2, c3);
    lemma_refine_non_nan(so[2], m2, l2, c1, c2, c3);
    lemma_refine_non_nan(so[3], m3, l3, c1, c2, c3);
}

/// A freshly seeded candidate carries no NaN fitness.
pub proof fn lemma_from_candidate_seed_wf(seed: u64)
    ensures
        !sp_is_nan(sp_from_candidate_seed(seed).max_error),
        !sp_is_nan(sp_from_candidate_seed(seed).rms_error),
{
    reveal(sp_from_candidate_seed);
    let g = sp_from_seed(seed);
    let (g1, r) = sp_next_f32_bits(g);
    if sp_lt(r, Q25) {
        lemma_evaluate_wf(0x5f5e_555cu32, 0x3E82_B424u32, 0x4096_5883u32);
    } else if sp_lt(r, Q50) {
        lemma_evaluate_wf(0x5f1a_bf31u32, 0x3F42_53F3u32, 0x4011_6632u32);
    } else if sp_lt(r, Q75) {
        lemma_evaluate_wf(0x5F1F_FFF9u32, 0x3F34_3637u32, 0x4018_E962u32);
    } else {
        let (ga, c1) = sp_gen_range(g1, 0x5940_0000, 0x5f40_0000);
        let (gb, c2) = sp_next_f32_bits(ga);
        let (gc, c3r) = sp_next_f32_bits(gb);
        lemma_evaluate_wf(c1, c2, sp_f32_add(sp_f32_mul(THREE, c3r), TWO));
    }
}

/// A stepped candidate carries no NaN fitness.
pub proof fn lemma_step_wf(a: Approx)
    ensures
        !sp_is_nan(sp_step(a).max_error),
        !sp_is_nan(sp_step(a).rms_error),
{
    reveal(sp_step);
    let m = sp_mutate(a);
    lemma_evaluate_wf(m.c1, m.c2, m.c3);
}

/// Clamp by two one-sided comparisons, so a NaN input is returned
/// unchanged (both comparisons fail on it).
pub open spec fn sp_clamp(x: u32, lo: u32, hi: u32) -> u32 {
    if sp_lt(x, lo) {
        lo
    } else if sp_lt(hi, x) {
        hi
    } else {
        x
    }
}

fn f32_clamp(x: u32, lo: u32, hi: u32) -> (r: u32)
    ensures
        r == sp_clamp(x, lo, hi),
{
    if f32_lt(x, lo) {
        lo
    } else if f32_lt(hi, x) {
        hi
    } else {
        x
    }
}

/// One mutation of the coefficient triple: a uniform draw selects the
/// strategy (30% proportional integer perturbation of `c1`, 30%
/// multiplicative perturbation of `c2` clamped to [2, 5], 30% of `c3`
/// clamped to [0, 1], 10% big jump: fresh `c1` in a broad band and milder
/// joint noise on `c2` and `c3`), with all perturbation noise drawn from
/// the standard-normal sampler. The fitness fields are left stale until the
/// next evaluation.
#[verifier::opaque]
pub open spec fn sp_mutate(a: Approx) -> Approx {
    let (g1, r) = sp_next_f32_bits(a.rng);
    let (g2, val) = sp_next_normal(g1);
    if sp_lt(r, T03) {
        let d = sp_f32_to_i32(sp_f32_mul(sp_f32_mul(sp_f32_from_u32(a.c1), val), CENT));
        Approx { rng: g2, c1: u32_specs::wrapping_add_signed(a.c1, d), ..a }
    } else if sp_lt(r, T06) {
        let c2 = sp_clamp(sp_f32_mul(a.c2, sp_f32_add(ONE, val)), TWO, FIVE);
        Approx { rng: g2, c2, ..a }
    } else if sp_lt(r, T09) {
        let c3 = sp_clamp(sp_f32_mul(a.c3, sp_f32_add(ONE, val)), 0u32, ONE);
        Approx { rng: g2, c3, ..a }
    } else {
        let (g3, c1) = sp_gen_range(g2, 0x5f00_0000, 0x5f60_0000);
        let c2 = sp_f32_mul(a.c2, sp_f32_add(ONE, sp_f32_mul(val, TENTH)));
        let (g4, val2) = sp_next_normal(g3);
        let c3 = sp_f32_mul(a.c3, sp_f32_add(ONE, sp_f32_mul(val2, TENTH)));
        Approx { rng: g4, c1, c2, c3, ..a }
    }
}

/// The candidate after one full step: mutation then re-evaluation.
#[verifier::opaque]
pub open spec fn sp_step(a: Approx) -> Approx {
    let m = sp_mutate(a);
    let (mx, loc, rms) = sp_evaluate(m.c1, m.c2, m.c3);
    Approx { max_error: mx, max_error_loc: loc, rms_error: rms, ..m }
}

/// The candidate built from a seed: the seeded generator's first uniform
/// draw picks among three known-good starting triples and a fully random
/// one, and the triple is evaluated.
#[verifier::opaque]
pub open spec fn sp_from_candidate_seed(seed: u64) -> Approx {
    let g = sp_from_seed(seed);
    let (g1, r) = sp_next_f32_bits(g);
    let (g2, c1, c2, c3) = if sp_lt(r, Q25) {
        (g1, 0x5f5e_555cu32, 0x3E82_B424u32, 0x4096_5883u32)
    } else if sp_lt(r, Q50) {
        (g1, 0x5f1a_bf31u32, 0x3F42_53F3u32, 0x4011_6632u32)
    } else if sp_lt(r, Q75) {
        (g1, 0x5F1F_FFF9u32, 0x3F34_3637u32, 0x4018_E962u32)
    } else {
        let (ga, c1) = sp_gen_range(g1, 0x5940_0000, 0x5f40_0000);
        let (gb, c2) = sp_next_f32_bits(ga);
        let (gc, c3r) = sp_next_f32_bits(gb);
        (gc, c1, c2, sp_f32_add(sp_f32_mul(THREE, c3r), TWO))
    };
    let (mx, loc, rms) = sp_evaluate(c1, c2, c3);
    Approx { rng: g2, c1, c2, c3, max_error: mx, max_error_loc: loc, rms_error: rms }
}

impl Approx {
    /// Builds and evaluates the candidate for a seed; see
    /// `sp_from_candidate_seed`.
    pub fn from_seed(seed: u64) -> (r: Approx)
        ensures
            r == sp_from_candidate_seed(seed),
            !sp_is_nan(r.max_error),
            !sp_is_nan(r.rms_error),
    {
        proof {
            reveal(sp_from_candidate_seed);
        }
        let mut g = Pcg::from_seed(seed);
        let r = g.next_f32_bits();
        let (c1, c2, c3) = if f32_lt(r, Q25) {
            (0x5f5e_555c, 0x3E82_B424, 0x4096_5883)
        } else if f32_lt(r, Q50) {
            (0x5f1a_bf31, 0x3F42_53F3, 0x4011_6632)
        } else if f32_lt(r, Q75) {
            (0x5F1F_FFF9, 0x3F34_3637, 0x4018_E962)
        } else {
            let c1 = g.gen_range(0x5940_0000, 0x5f40_0000);
            let c2 = g.next_f32_bits();
            let c3r = g.next_f32_bits();
            (c1, c2, f32_add(f32_mul(THREE, c3r), TWO))
        };
        let (mx, loc, rms) = evaluate(c1, c2, c3);
        Approx { rng: g, c1, c2, c3, max_error: mx, max_error_loc: loc, rms_error: rms }
    }

    /// Builds and evaluates a candidate with the given coefficients and
    /// seed (for callers that supply their own starting point or entropy).
    pub fn with_coeffs(seed: u64, c1: u32, c2: u32, c3: u32) -> (r: Approx)
        ensures
            r.rng == sp_from_seed(seed),
            r.c1 == c1 && r.c2 == c2 && r.c3 == c3,
            (r.max_error, r.max_error_loc, r.rms_error) == sp_evaluate(c1, c2, c3),
            !sp_is_nan(r.max_error),
            !sp_is_nan(r.rms_error),
    {
        let g = Pcg::from_seed(seed);
        let (mx, loc, rms) = evaluate(c1, c2, c3);
        Approx { rng: g, c1, c2, c3, max_error: mx, max_error_loc: loc, rms_error: rms }
    }

    /// Recomputes the fitness fields from the current coefficients; see
    /// `sp_evaluate`.
    pub fn search_interval(&mut self)
        ensures
            *final(self) == (Approx {
                max_error: sp_evaluate(old(self).c1, old(self).c2, old(self).c3).0,
                max_error_loc: sp_evaluate(old(self).c1, old(self).c2, old(self).c3).1,
                rms_error: sp_evaluate(old(self).c1, old(self).c2, old(self).c3).2,
                ..*old(self)
            }),
            !sp_is_nan(final(self).max_error),
            !sp_is_nan(final(self).rms_error),
    {
        let (mx, loc, rms) = evaluate(self.c1, self.c2, self.c3);
        self.max_error = mx;
        self.max_error_loc = loc;
        self.rms_error = rms;
    }

    /// One evolutionary step: mutate, then re-evaluate; see `sp_step`.
    pub fn step(&mut self, t: u32, nt: u32)
        requires
            t < 0xFFFF_FFFFu32,
        ensures
            *final(self) == sp_step(*old(self)),
            !sp_is_nan(final(self).max_error),
            !sp_is_nan(final(self).rms_error),
    {
        proof {
            reveal(sp_step);
        }
        self.mutate(t + 1, nt);
        self.search_interval();
    }

    /// Applies one mutation; see `sp_mutate`. The generation counters are
    /// accepted for interface compatibility and do not influence the
    /// strategies.
    fn mutate(&mut self, t: u32, nt: u32)
        ensures
            *final(self) == sp_mutate(*old(self)),
    {
        proof {
            reveal(sp_mutate);
        }
        let _ = t;
        let _ = nt;
        let r = self.rng.next_f32_bits();
        let val = self.rng.next_normal();
        if f32_lt(r, T03) {
            let d = f32_to_i32(f32_mul(f32_mul(f32_from_u32(self.c1), val), CENT));
            self.c1 = self.c1.wrapping_add_signed(d);
        } else if f32_lt(r, T06) {
            self.c2 = f32_clamp(f32_mul(self.c2, f32_add(ONE, val)), TWO, FIVE);
        } else if f32_lt(r, T09) {
            self.c3 = f32_clamp(f32_mul(self.c3, f32_add(ONE, val)), 0, ONE);
        } else {
            self.c1 = self.rng.gen_range(0x5f00_0000, 0x5f60_0000);
            self.c2 = f32_mul(self.c2, f32_add(ONE, f32_mul(val, TENTH)));
            let val2 = self.rng.next_normal();
            self.c3 = f32_mul(self.c3, f32_add(ONE, f32_mul(val2, TENTH)));
        }
    }
}

} // verus!
