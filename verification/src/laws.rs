//! Global laws of the engine, stated over the same spec functions that the
//! executable functions are proved against.
//!
//! The per-generation laws — the ascending fitness order of each population
//! and the coefficient replication of the tail slots — stand as
//! postconditions of `Population::step_generation` and
//! `Population::rank_and_replicate`; the laws here relate separate runs.

use vstd::prelude::*;
use crate::approx::{Approx, sp_evaluate, sp_err, sp_peak};
use crate::fbits::sp_is_nan;
use crate::population::{sp_evolve, sp_initial};

verus! {

/// The peak finder's reported value is genuinely the error at its reported
/// location: whichever way the bisection ends (bracket collapse, a zero
/// gradient, or the iteration cap), the pair it returns is a location and
/// that location's own error.
pub proof fn lemma_peak_reports_its_own_error(
    l: u32,
    r: u32,
    c1: u32,
    c2: u32,
    c3: u32,
    fuel: nat,
)
    ensures
        sp_peak(l, r, c1, c2, c3, fuel).1 == sp_err(sp_peak(l, r, c1, c2, c3, fuel).0, c1, c2, c3),
    decreases fuel,
{
    if fuel > 0 {
        let m = crate::softfloat::sp_f32_add(
            l,
            crate::softfloat::sp_f32_mul(crate::gauss::HALF, crate::softfloat::sp_f32_sub(r, l)),
        );
        let w = crate::softfloat::sp_f32_sub(r, l);
        if !crate::fbits::sp_le(w, crate::approx::EPS2) {
            let sl = crate::approx::sp_slope(m, c1, c2, c3);
            if crate::fbits::sp_lt(sl, 0u32) {
                lemma_peak_reports_its_own_error(l, m, c1, c2, c3, (fuel - 1) as nat);
            } else if crate::fbits::sp_lt(0u32, sl) {
                lemma_peak_reports_its_own_error(m, r, c1, c2, c3, (fuel - 1) as nat);
            }
        }
    }
}

/// Fitness evaluation is idempotent: two evaluations of the same
/// coefficient triple, with no mutation in between, give bit-identical
/// fitness results. (`evaluate` pins its result to `sp_evaluate`, which
/// depends on the coefficients alone — not on any candidate's random
/// state.)
pub proof fn lemma_evaluate_idempotent(
    c1: u32,
    c2: u32,
    c3: u32,
    r1: (u32, u32, u32),
    r2: (u32, u32, u32),
)
    requires
        r1 == sp_evaluate(c1, c2, c3),
        r2 == sp_evaluate(c1, c2, c3),
    ensures
        r1 == r2,
{
}

/// Fitness evaluation of two candidates with equal coefficients agrees,
/// whatever their generators hold.
pub proof fn lemma_evaluate_ignores_rng(a: Approx, b: Approx)
    requires
        a.c1 == b.c1,
        a.c2 == b.c2,
        a.c3 == b.c3,
    ensures
        sp_evaluate(a.c1, a.c2, a.c3) == sp_evaluate(b.c1, b.c2, b.c3),
{
}

/// Determinism of the evolutionary run: two pairs of populations in
/// bit-identical states, evolved for the same number of generations, end
/// in bit-identical states — in particular with the same best candidate.
/// Two populations built by `Population::with_capacity(n)` start from
/// `sp_initial(n)` and are therefore bit-identical from the outset.
pub proof fn lemma_evolve_deterministic(
    rms1: Seq<Approx>,
    mm1: Seq<Approx>,
    rms2: Seq<Approx>,
    mm2: Seq<Approx>,
    gens: nat,
)
    requires
        rms1 == rms2,
        mm1 == mm2,
    ensures
        sp_evolve(rms1, mm1, gens) == sp_evolve(rms2, mm2, gens),
{
}

/// The rank-0 candidate that the best-candidate accessors return is a
/// population minimum: in a sorted population no member has a smaller
/// fitness key.
pub proof fn lemma_rank_zero_is_minimum(s: Seq<Approx>, by_rms: bool, j: int)
    requires
        crate::population::sp_sorted(s, by_rms),
        0 < j < s.len(),
    ensures
        crate::population::sp_fit(s[0], by_rms) <= crate::population::sp_fit(s[j], by_rms),
{
}

/// Every candidate of a freshly built population carries comparable (non
/// NaN) fitness, and the same holds after any number of generations: the
/// sentinel-penalty mapping keeps selection a total ordering even for
/// coefficients whose approximation degenerates over the whole domain.
pub proof fn lemma_initial_fitness_comparable(n: nat, j: int)
    requires
        0 <= j < sp_initial(n).len(),
    ensures
        !sp_is_nan(sp_initial(n)[j].max_error),
        !sp_is_nan(sp_initial(n)[j].rms_error),
{
    crate::population::lemma_initial_wf(n);
    assert(!sp_is_nan(sp_initial(n)[j].max_error) && !sp_is_nan(sp_initial(n)[j].rms_error));
}

} // verus!
