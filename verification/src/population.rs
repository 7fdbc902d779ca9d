//! The evolutionary loop over two independent populations.
//!
//! One population selects on the mean error and one on the worst-case
//! error; both run the same generation schedule: mutate and re-evaluate
//! every non-elite candidate, sort ascending by the fitness key, then
//! refill the tail slots by copying the elite coefficient triples
//! cyclically, while the slots just above the elites keep their own mutated
//! coefficients. After every generation each population is sorted by its
//! fitness key, and every refilled slot carries its parent's coefficients.

use vstd::prelude::*;
use crate::approx::{Approx, sp_step, sp_from_candidate_seed};
use crate::fbits::{sp_is_nan, sp_key, sp_le, f32_key_lt};

verus! {

broadcast use vstd::seq_lib::group_to_multiset_ensures;

/// The fitness key a population sorts by: the total-order key of the mean
/// error or of the worst error.
pub open spec fn sp_fit(a: Approx, by_rms: bool) -> int {
    if by_rms {
        sp_key(a.rms_error)
    } else {
        sp_key(a.max_error)
    }
}

/// Ascending order by the fitness key.
pub open spec fn sp_sorted(s: Seq<Approx>, by_rms: bool) -> bool {
    forall|i: int, j: int|
        0 <= i < j < s.len() ==> #[trigger] sp_fit(s[i], by_rms) <= #[trigger] sp_fit(
            s[j],
            by_rms,
        )
}

/// Every slot at or beyond twice the cutoff carries the coefficient triple
/// of its parent slot (its index modulo the cutoff).
pub open spec fn sp_replicated(s: Seq<Approx>, k: int) -> bool {
    forall|j: int|
        2 * k <= j < s.len() ==> (#[trigger] s[j]).c1 == s[j % k].c1 && s[j].c2 == s[j % k].c2
            && s[j].c3 == s[j % k].c3
}

/// Adjacent candidates are ordered by the chosen fitness value in the
/// floating-point sense (which needs both sides free of NaN).
pub open spec fn sp_fitness_ascending(s: Seq<Approx>, by_rms: bool) -> bool {
    forall|i: int|
        0 <= i < s.len() - 1 ==> sp_le(
            if by_rms {
                (#[trigger] s[i]).rms_error
            } else {
                s[i].max_error
            },
            if by_rms {
                s[i + 1].rms_error
            } else {
                s[i + 1].max_error
            },
        )
}

/// No candidate carries a NaN fitness value.
pub open spec fn sp_wf(s: Seq<Approx>) -> bool {
    forall|j: int|
        0 <= j < s.len() ==> !sp_is_nan(#[trigger] s[j].max_error) && !sp_is_nan(s[j].rms_error)
}

/// Stable ascending insertion by the fitness key.
pub open spec fn sp_ins(s: Seq<Approx>, x: Approx, by_rms: bool) -> Seq<Approx>
    decreases s.len(),
{
    if s.len() == 0 {
        seq![x]
    } else if sp_fit(x, by_rms) < sp_fit(s.last(), by_rms) {
        sp_ins(s.drop_last(), x, by_rms).push(s.last())
    } else {
        s.push(x)
    }
}

/// Stable insertion sort, ascending by the fitness key.
pub open spec fn sp_sort(s: Seq<Approx>, by_rms: bool) -> Seq<Approx>
    decreases s.len(),
{
    if s.len() == 0 {
        s
    } else {
        sp_ins(sp_sort(s.drop_last(), by_rms), s.last(), by_rms)
    }
}

/// Insertion keeps sortedness, adds the element to the multiset, and grows
/// the length by one.
proof fn lemma_ins(s: Seq<Approx>, x: Approx, by_rms: bool)
    requires
        sp_sorted(s, by_rms),
    ensures
        sp_sorted(sp_ins(s, x, by_rms), by_rms),
        sp_ins(s, x, by_rms).to_multiset() == s.to_multiset().insert(x),
        sp_ins(s, x, by_rms).len() == s.len() + 1,
        forall|j: int|
            0 <= j < sp_ins(s, x, by_rms).len() ==> sp_ins(s, x, by_rms)[j] == x || s.contains(
                #[trigger] sp_ins(s, x, by_rms)[j],
            ),
    decreases s.len(),
{
    if s.len() == 0 {
    } else if sp_fit(x, by_rms) < sp_fit(s.last(), by_rms) {
        let d = s.drop_last();
        assert(forall|i: int, j: int|
            0 <= i < j < d.len() ==> #[trigger] sp_fit(d[i], by_rms) <= #[trigger] sp_fit(
                d[j],
                by_rms,
            ));
        lemma_ins(d, x, by_rms);
        let t = sp_ins(d, x, by_rms);
        assert(forall|j: int| 0 <= j < t.len() ==> sp_fit(#[trigger] t[j], by_rms) <= sp_fit(
            s.last(),
            by_rms,
        )) by {
            assert forall|j: int| 0 <= j < t.len() implies sp_fit(#[trigger] t[j], by_rms)
                <= sp_fit(s.last(), by_rms) by {
                if t[j] == x {
                } else {
                    assert(d.contains(t[j]));
                    let w = choose|w: int| 0 <= w < d.len() && d[w] == t[j];
                    assert(sp_fit(d[w], by_rms) <= sp_fit(s.last(), by_rms)) by {
                        assert(d[w] == s[w] && s.last() == s[s.len() - 1]);
                    }
                }
            }
        }
        assert(s.to_multiset() == d.to_multiset().insert(s.last())) by {
            assert(s =~= d.push(s.last()));
        }
        assert(t.push(s.last()).to_multiset() == t.to_multiset().insert(s.last()));
        assert(t.to_multiset().insert(s.last()) == d.to_multiset().insert(x).insert(s.last()));
        assert(d.to_multiset().insert(x).insert(s.last()) =~= d.to_multiset().insert(
            s.last(),
        ).insert(x)) by {
            broadcast use vstd::multiset::lemma_insert_increases_count_by_1,
                vstd::multiset::lemma_insert_other_elements_unchanged;

        }
        assert(forall|j: int|
            0 <= j < t.push(s.last()).len() ==> t.push(s.last())[j] == x || s.contains(
                #[trigger] t.push(s.last())[j],
            )) by {
            assert forall|j: int| 0 <= j < t.push(s.last()).len() implies t.push(s.last())[j] == x
                || s.contains(#[trigger] t.push(s.last())[j]) by {
                if j < t.len() {
                    assert(t.push(s.last())[j] == t[j]);
                    if t[j] != x {
                        assert(d.contains(t[j]));
                        let w = choose|w: int| 0 <= w < d.len() && d[w] == t[j];
                        assert(s[w] == t[j]);
                    }
                } else {
                    assert(t.push(s.last())[j] == s.last());
                    assert(s.contains(s.last()));
                }
            }
        }
    } else {
        assert(forall|j: int| 0 <= j < s.len() ==> sp_fit(#[trigger] s[j], by_rms) <= sp_fit(
            x,
            by_rms,
        )) by {
            assert forall|j: int| 0 <= j < s.len() implies sp_fit(#[trigger] s[j], by_rms)
                <= sp_fit(x, by_rms) by {
                assert(sp_fit(s[j], by_rms) <= sp_fit(s[s.len() - 1], by_rms));
            }
        }
    }
}

/// Sorting sorts, keeps the multiset, and keeps the length.
pub proof fn lemma_sort(s: Seq<Approx>, by_rms: bool)
    ensures
        sp_sorted(sp_sort(s, by_rms), by_rms),
        sp_sort(s, by_rms).to_multiset() == s.to_multiset(),
        sp_sort(s, by_rms).len() == s.len(),
    decreases s.len(),
{
    if s.len() > 0 {
        let d = s.drop_last();
        lemma_sort(d, by_rms);
        lemma_ins(sp_sort(d, by_rms), s.last(), by_rms);
        assert(s =~= d.push(s.last()));
        assert(s.to_multiset() == d.to_multiset().insert(s.last()));
    }
}

/// Every element of the sorted sequence occurs in the input.
proof fn lemma_sort_elems(s: Seq<Approx>, by_rms: bool)
    ensures
        forall|j: int|
            0 <= j < sp_sort(s, by_rms).len() ==> s.contains(#[trigger] sp_sort(s, by_rms)[j]),
    decreases s.len(),
{
    if s.len() > 0 {
        let d = s.drop_last();
        lemma_sort_elems(d, by_rms);
        lemma_sort(d, by_rms);
        lemma_ins(sp_sort(d, by_rms), s.last(), by_rms);
        let t = sp_ins(sp_sort(d, by_rms), s.last(), by_rms);
        assert forall|j: int| 0 <= j < t.len() implies s.contains(#[trigger] t[j]) by {
            if t[j] == s.last() {
                assert(s[s.len() - 1] == s.last());
            } else {
                assert(sp_sort(d, by_rms).contains(t[j]));
                let w = choose|w: int|
                    0 <= w < sp_sort(d, by_rms).len() && sp_sort(d, by_rms)[w] == t[j];
                assert(d.contains(t[j]));
                let u = choose|u: int| 0 <= u < d.len() && d[u] == t[j];
                assert(s[u] == t[j]);
            }
        }
    }
}

/// Sorting a sequence free of NaN fitness values gives one free of them.
proof fn lemma_sort_wf(s: Seq<Approx>, by_rms: bool)
    requires
        sp_wf(s),
    ensures
        sp_wf(sp_sort(s, by_rms)),
{
    lemma_sort(s, by_rms);
    lemma_sort_elems(s, by_rms);
    let t = sp_sort(s, by_rms);
    assert forall|j: int|
        0 <= j < t.len() implies !sp_is_nan((#[trigger] t[j]).max_error) && !sp_is_nan(
        t[j].rms_error,
    ) by {
        assert(s.contains(t[j]));
        let w = choose|w: int| 0 <= w < s.len() && s[w] == t[j];
        assert(!sp_is_nan(s[w].max_error) && !sp_is_nan(s[w].rms_error));
    }
}

fn ins_exec(v: Vec<Approx>, x: Approx, by_rms: bool) -> (r: Vec<Approx>)
    ensures
        r@ == sp_ins(v@, x, by_rms),
    decreases v.len(),
{
    let mut v = v;
    if v.len() == 0 {
        v.push(x);
        v
    } else {
        let lastv = v[v.len() - 1];
        let kx = if by_rms {
            x.rms_error
        } else {
            x.max_error
        };
        let kl = if by_rms {
            lastv.rms_error
        } else {
            lastv.max_error
        };
        if f32_key_lt(kx, kl) {
            let l = v.pop().unwrap();
            let mut s = ins_exec(v, x, by_rms);
            s.push(l);
            s
        } else {
            v.push(x);
            v
        }
    }
}

fn sort_exec(v: Vec<Approx>, by_rms: bool) -> (r: Vec<Approx>)
    ensures
        r@ == sp_sort(v@, by_rms),
    decreases v.len(),
{
    let mut v = v;
    if v.len() == 0 {
        v
    } else {
        let x = v.pop().unwrap();
        let s = sort_exec(v, by_rms);
        ins_exec(s, x, by_rms)
    }
}

/// The population after the mutation-and-evaluation phase: every candidate
/// at or beyond the elite cutoff takes one step; the elites are untouched.
pub open spec fn sp_phase_step(s: Seq<Approx>, k: int) -> Seq<Approx> {
    s.map(|i: int, a: Approx| if i >= k { sp_step(a) } else { a })
}

/// The population after replication: every slot from twice the elite
/// cutoff upward takes the coefficient triple of its parent (its index
/// modulo the cutoff) while keeping its own generator and fitness fields.
pub open spec fn sp_phase_repl(s: Seq<Approx>, k: int) -> Seq<Approx> {
    s.map(
        |i: int, a: Approx|
            if i >= 2 * k {
                Approx { c1: s[i % k].c1, c2: s[i % k].c2, c3: s[i % k].c3, ..a }
            } else {
                a
            },
    )
}

/// Selection and replication: sort by the fitness key, then refill the
/// tail with the elite coefficients.
pub open spec fn sp_rank_repl(s: Seq<Approx>, k: int, by_rms: bool) -> Seq<Approx> {
    sp_phase_repl(sp_sort(s, by_rms), k)
}

/// One full generation of one population: step the non-elites, sort by the
/// fitness key, replicate the elites into the tail.
pub open spec fn sp_generation(s: Seq<Approx>, k: int, by_rms: bool) -> Seq<Approx> {
    sp_rank_repl(sp_phase_step(s, k), k, by_rms)
}

/// Replication does not touch the fitness fields, so sortedness by the
/// fitness key survives it; and every tail slot gets its parent's
/// coefficients.
proof fn lemma_repl(s: Seq<Approx>, k: int, by_rms: bool)
    requires
        1 <= k,
    ensures
        sp_phase_repl(s, k).len() == s.len(),
        sp_sorted(s, by_rms) ==> sp_sorted(sp_phase_repl(s, k), by_rms),
        sp_wf(s) ==> sp_wf(sp_phase_repl(s, k)),
        forall|j: int|
            0 <= j < s.len() ==> (#[trigger] sp_phase_repl(s, k)[j]).max_error == s[j].max_error
                && sp_phase_repl(s, k)[j].rms_error == s[j].rms_error,
        forall|j: int|
            2 * k <= j < s.len() ==> (#[trigger] sp_phase_repl(s, k)[j]).c1 == sp_phase_repl(
                s,
                k,
            )[j % k].c1 && sp_phase_repl(s, k)[j].c2 == sp_phase_repl(s, k)[j % k].c2
                && sp_phase_repl(s, k)[j].c3 == sp_phase_repl(s, k)[j % k].c3,
{
    let t = sp_phase_repl(s, k);
    assert forall|j: int|
        0 <= j < s.len() implies (#[trigger] t[j]).max_error == s[j].max_error && t[j].rms_error
        == s[j].rms_error by {}
    if sp_sorted(s, by_rms) {
        assert forall|i: int, j: int|
            0 <= i < j < t.len() implies #[trigger] sp_fit(t[i], by_rms) <= #[trigger] sp_fit(
            t[j],
            by_rms,
        ) by {
            assert(sp_fit(s[i], by_rms) <= sp_fit(s[j], by_rms));
        }
    }
    if sp_wf(s) {
        assert forall|j: int|
            0 <= j < t.len() implies !sp_is_nan((#[trigger] t[j]).max_error) && !sp_is_nan(
            t[j].rms_error,
        ) by {
            assert(!sp_is_nan(s[j].max_error) && !sp_is_nan(s[j].rms_error));
        }
    }
    assert forall|j: int| 2 * k <= j < s.len() implies (#[trigger] t[j]).c1 == t[j % k].c1
        && t[j].c2 == t[j % k].c2 && t[j].c3 == t[j % k].c3 by {
        assert(0 <= j % k < k) by {
            vstd::arithmetic::div_mod::lemma_mod_bound(j, k);
        }
        assert(t[j % k] == s[j % k]);
    }
}

/// The candidates of the initial population: candidate `i` is seeded with
/// `0x1337 + 0xc0ffee * i`.
pub open spec fn sp_initial(n: nat) -> Seq<Approx>
    decreases n,
{
    if n == 0 {
        Seq::empty()
    } else {
        sp_initial((n - 1) as nat).push(
            sp_from_candidate_seed((0x1337 + 0xc0ffee * (n - 1)) as u64),
        )
    }
}

/// The initial population has `n` candidates, none with NaN fitness.
pub proof fn lemma_initial_wf(n: nat)
    ensures
        sp_initial(n).len() == n,
        sp_wf(sp_initial(n)),
    decreases n,
{
    if n > 0 {
        lemma_initial_wf((n - 1) as nat);
        let prev = sp_initial((n - 1) as nat);
        let x = sp_from_candidate_seed((0x1337 + 0xc0ffee * (n - 1)) as u64);
        assert(!sp_is_nan(x.max_error) && !sp_is_nan(x.rms_error)) by {
            crate::approx::lemma_from_candidate_seed_wf((0x1337 + 0xc0ffee * (n - 1)) as u64);
        }
        let t = sp_initial(n);
        assert forall|j: int|
            0 <= j < t.len() implies !sp_is_nan((#[trigger] t[j]).max_error) && !sp_is_nan(
            t[j].rms_error,
        ) by {
            if j < prev.len() {
                assert(t[j] == prev[j]);
                assert(!sp_is_nan(prev[j].max_error) && !sp_is_nan(prev[j].rms_error));
            } else {
                assert(t[j] == x);
            }
        }
    }
}

/// Two independent populations over the same candidates: one selects on
/// the mean error, one on the worst error.
pub struct Population {
    /// The population ranked by mean error.
    pub rms_approx: Vec<Approx>,
    /// The population ranked by worst-case error.
    pub minmax_approx: Vec<Approx>,
}

/// The elite cutoff for a population of `n`: a tenth of the population,
/// but at least one, so that replication always has a parent.
pub open spec fn sp_nkeep(n: nat) -> nat {
    if n / 10 >= 1 {
        n / 10
    } else {
        1
    }
}

/// Both populations after one generation each.
pub open spec fn sp_pop_generation(rms: Seq<Approx>, mm: Seq<Approx>) -> (Seq<Approx>, Seq<
    Approx,
>) {
    (
        sp_generation(rms, sp_nkeep(rms.len()) as int, true),
        sp_generation(mm, sp_nkeep(mm.len()) as int, false),
    )
}

/// Both populations after the remaining generations from `t` to `nt`.
pub open spec fn sp_evolve_from(rms: Seq<Approx>, mm: Seq<Approx>, t: u32, nt: u32) -> (Seq<
    Approx,
>, Seq<Approx>)
    decreases nt - t,
{
    if t > nt {
        (rms, mm)
    } else {
        let (r2, m2) = sp_pop_generation(rms, mm);
        if t == nt {
            (r2, m2)
        } else {
            sp_evolve_from(r2, m2, (t + 1) as u32, nt)
        }
    }
}

impl Population {
    /// Both populations hold the same number of candidates and no NaN
    /// fitness value.
    pub open spec fn wf(self) -> bool {
        sp_wf(self.rms_approx@) && sp_wf(self.minmax_approx@) && self.rms_approx@.len()
            == self.minmax_approx@.len()
    }

    /// Builds the two populations of `n` candidates each, both from the
    /// same deterministic per-index seeds.
    pub fn with_capacity(n: usize) -> (r: Population)
        requires
            n <= 0x1000_0000,
        ensures
            r.rms_approx@ == sp_initial(n as nat),
            r.minmax_approx@ == sp_initial(n as nat),
            r.rms_approx@.len() == n,
            r.wf(),
    {
        let mut rms: Vec<Approx> = Vec::new();
        let mut i: usize = 0;
        while i < n
            invariant
                rms@ == sp_initial(i as nat),
                i <= n <= 0x1000_0000,
            decreases n - i,
        {
            rms.push(Approx::from_seed(0x1337 + 0xc0ffee * (i as u64)));
            i = i + 1;
        }
        let mut mm: Vec<Approx> = Vec::new();
        let mut j: usize = 0;
        while j < n
            invariant
                mm@ == sp_initial(j as nat),
                j <= n <= 0x1000_0000,
            decreases n - j,
        {
            mm.push(Approx::from_seed(0x1337 + 0xc0ffee * (j as u64)));
            j = j + 1;
        }
        proof {
            lemma_initial_wf(n as nat);
        }
        Population { rms_approx: rms, minmax_approx: mm }
    }

    /// The elite cutoff of this population; see `sp_nkeep`.
    pub fn nkeep(&self) -> (r: usize)
        ensures
            r == sp_nkeep(self.rms_approx@.len()),
    {
        let k = self.rms_approx.len() / 10;
        if k >= 1 {
            k
        } else {
            1
        }
    }

    /// One generation of both populations: mutation and re-evaluation of
    /// the non-elites, selection by sorting, replication of the elites
    /// into the tail. Afterwards each population is ordered by its fitness
    /// key, and each slot at or beyond twice the cutoff carries the
    /// coefficients of its parent slot.
    pub fn step_generation(&mut self, t: u32, nt: u32)
        requires
            old(self).wf(),
            t < 0xFFFF_FFFFu32,
        ensures
            (final(self).rms_approx@, final(self).minmax_approx@) == sp_pop_generation(
                old(self).rms_approx@,
                old(self).minmax_approx@,
            ),
            final(self).wf(),
            final(self).rms_approx@.len() == old(self).rms_approx@.len(),
            sp_sorted(final(self).rms_approx@, true),
            sp_sorted(final(self).minmax_approx@, false),
            sp_fitness_ascending(final(self).rms_approx@, true),
            sp_fitness_ascending(final(self).minmax_approx@, false),
            sp_replicated(final(self).rms_approx@, sp_nkeep(old(self).rms_approx@.len()) as int),
            sp_replicated(
                final(self).minmax_approx@,
                sp_nkeep(old(self).minmax_approx@.len()) as int,
            ),
    {
        let k = self.nkeep();
        let mut rms: Vec<Approx> = Vec::new();
        core::mem::swap(&mut rms, &mut self.rms_approx);
        let rms2 = generation_exec(rms, k, t, nt, true);
        self.rms_approx = rms2;
        let mut mm: Vec<Approx> = Vec::new();
        core::mem::swap(&mut mm, &mut self.minmax_approx);
        let mm2 = generation_exec(mm, k, t, nt, false);
        self.minmax_approx = mm2;
    }

    /// Selection and replication only: sorts both populations by their
    /// fitness keys and refills the tails from the elites. A driver that
    /// runs the per-candidate steps itself (for instance in parallel — the
    /// steps are independent and touch only their own candidate) completes
    /// the generation with this call.
    pub fn rank_and_replicate(&mut self)
        requires
            old(self).wf(),
        ensures
            final(self).rms_approx@ == sp_rank_repl(
                old(self).rms_approx@,
                sp_nkeep(old(self).rms_approx@.len()) as int,
                true,
            ),
            final(self).minmax_approx@ == sp_rank_repl(
                old(self).minmax_approx@,
                sp_nkeep(old(self).minmax_approx@.len()) as int,
                false,
            ),
            final(self).wf(),
            final(self).rms_approx@.len() == old(self).rms_approx@.len(),
            sp_sorted(final(self).rms_approx@, true),
            sp_sorted(final(self).minmax_approx@, false),
            sp_fitness_ascending(final(self).rms_approx@, true),
            sp_fitness_ascending(final(self).minmax_approx@, false),
            sp_replicated(final(self).rms_approx@, sp_nkeep(old(self).rms_approx@.len()) as int),
            sp_replicated(
                final(self).minmax_approx@,
                sp_nkeep(old(self).minmax_approx@.len()) as int,
            ),
    {
        let k = self.nkeep();
        let mut rms: Vec<Approx> = Vec::new();
        core::mem::swap(&mut rms, &mut self.rms_approx);
        let rms2 = rank_repl_exec(rms, k, true);
        self.rms_approx = rms2;
        let mut mm: Vec<Approx> = Vec::new();
        core::mem::swap(&mut mm, &mut self.minmax_approx);
        let mm2 = rank_repl_exec(mm, k, false);
        self.minmax_approx = mm2;
    }

    /// Runs the generation loop for the given number of generations; see
    /// `sp_evolve`.
    pub fn evolve(&mut self, generations: u32)
        requires
            old(self).wf(),
        ensures
            (final(self).rms_approx@, final(self).minmax_approx@) == sp_evolve(
                old(self).rms_approx@,
                old(self).minmax_approx@,
                generations as nat,
            ),
            final(self).wf(),
            final(self).rms_approx@.len() == old(self).rms_approx@.len(),
            generations >= 1 ==> sp_sorted(final(self).rms_approx@, true) && sp_sorted(
                final(self).minmax_approx@,
                false,
            ),
            generations >= 1 ==> sp_replicated(
                final(self).rms_approx@,
                sp_nkeep(old(self).rms_approx@.len()) as int,
            ) && sp_replicated(
                final(self).minmax_approx@,
                sp_nkeep(old(self).minmax_approx@.len()) as int,
            ),
    {
        let ghost r0 = self.rms_approx@;
        let ghost m0 = self.minmax_approx@;
        let mut t: u32 = 0;
        while t < generations
            invariant
                (self.rms_approx@, self.minmax_approx@) == sp_evolve(r0, m0, t as nat),
                self.wf(),
                t <= generations,
                self.rms_approx@.len() == r0.len(),
                self.minmax_approx@.len() == m0.len(),
                t >= 1 ==> sp_sorted(self.rms_approx@, true) && sp_sorted(
                    self.minmax_approx@,
                    false,
                ),
                t >= 1 ==> sp_replicated(self.rms_approx@, sp_nkeep(r0.len()) as int)
                    && sp_replicated(self.minmax_approx@, sp_nkeep(m0.len()) as int),
            decreases generations - t,
        {
            self.step_generation(t, generations);
            t = t + 1;
        }
    }

    /// The best candidate of the population ranked by mean error.
    pub fn best_rms(&self) -> (r: Approx)
        requires
            self.rms_approx@.len() >= 1,
        ensures
            r == self.rms_approx@[0],
    {
        self.rms_approx[0]
    }

    /// The best candidate of the population ranked by worst-case error.
    pub fn best_minmax(&self) -> (r: Approx)
        requires
            self.minmax_approx@.len() >= 1,
        ensures
            r == self.minmax_approx@[0],
    {
        self.minmax_approx[0]
    }
}

/// Both populations after `gens` generations.
pub open spec fn sp_evolve(rms: Seq<Approx>, mm: Seq<Approx>, gens: nat) -> (Seq<Approx>, Seq<
    Approx,
>)
    decreases gens,
{
    if gens == 0 {
        (rms, mm)
    } else {
        let (r1, m1) = sp_evolve(rms, mm, (gens - 1) as nat);
        sp_pop_generation(r1, m1)
    }
}

/// The population after the mutation phase keeps its well-formedness.
proof fn lemma_phase_step_wf(s: Seq<Approx>, k: int)
    requires
        sp_wf(s),
    ensures
        sp_phase_step(s, k).len() == s.len(),
        sp_wf(sp_phase_step(s, k)),
{
    assert forall|j: int|
        0 <= j < sp_phase_step(s, k).len() implies !sp_is_nan(
        (#[trigger] sp_phase_step(s, k)[j]).max_error,
    ) && !sp_is_nan(sp_phase_step(s, k)[j].rms_error) by {
        if j >= k {
            crate::approx::lemma_step_wf(s[j]);
        }
    }
}

/// One generation of one population, with the selection and replication
/// guarantees surfaced.
fn generation_exec(v: Vec<Approx>, k: usize, t: u32, nt: u32, by_rms: bool) -> (r: Vec<Approx>)
    requires
        sp_wf(v@),
        1 <= k <= v.len() / 10 + 1,
        t < 0xFFFF_FFFFu32,
    ensures
        r@ == sp_generation(v@, k as int, by_rms),
        r@.len() == v@.len(),
        sp_wf(r@),
        sp_sorted(r@, by_rms),
        sp_fitness_ascending(r@, by_rms),
        sp_replicated(r@, k as int),
{
    let ghost orig = v@;
    let mut v = v;
    // Mutation and re-evaluation of every candidate at or beyond the cutoff.
    let mut i: usize = k;
    while i < v.len()
        invariant
            v@.len() == orig.len(),
            k <= i,
            sp_wf(orig),
            t < 0xFFFF_FFFFu32,
            forall|j: int|
                0 <= j < v@.len() ==> #[trigger] v@[j] == (if k <= j < i as int {
                    sp_step(orig[j])
                } else {
                    orig[j]
                }),
        decreases v.len() - i,
    {
        let mut a = v[i];
        a.step(t, nt);
        v[i] = a;
        i = i + 1;
    }
    proof {
        assert(v@ =~= sp_phase_step(orig, k as int));
        lemma_phase_step_wf(orig, k as int);
    }
    rank_repl_exec(v, k, by_rms)
}

/// Selection and replication of one population, with the ordering and
/// replication guarantees surfaced.
fn rank_repl_exec(v: Vec<Approx>, k: usize, by_rms: bool) -> (r: Vec<Approx>)
    requires
        sp_wf(v@),
        1 <= k <= v.len() / 10 + 1,
    ensures
        r@ == sp_rank_repl(v@, k as int, by_rms),
        r@.len() == v@.len(),
        sp_wf(r@),
        sp_sorted(r@, by_rms),
        sp_fitness_ascending(r@, by_rms),
        sp_replicated(r@, k as int),
{
    proof {
        lemma_sort(v@, by_rms);
        lemma_sort_wf(v@, by_rms);
    }
    // Selection: sort ascending by the fitness key.
    let sorted = sort_exec(v, by_rms);
    let ghost sview = sorted@;
    // Replication: copy the elite coefficients cyclically into the tail.
    let mut out = sorted;
    let mut c: usize = 2 * k;
    while c < out.len()
        invariant
            out@.len() == sview.len(),
            2 * k <= c,
            1 <= k,
            forall|j: int|
                0 <= j < out@.len() ==> #[trigger] out@[j] == (if 2 * k <= j < c as int {
                    Approx {
                        c1: sview[j % k as int].c1,
                        c2: sview[j % k as int].c2,
                        c3: sview[j % k as int].c3,
                        ..sview[j]
                    }
                } else {
                    sview[j]
                }),
        decreases out.len() - c,
    {
        let p = c % k;
        proof {
            assert(p < k) by {
                vstd::arithmetic::div_mod::lemma_mod_bound(c as int, k as int);
            }
        }
        let parent = out[p];
        let mut child = out[c];
        child.c1 = parent.c1;
        child.c2 = parent.c2;
        child.c3 = parent.c3;
        out[c] = child;
        c = c + 1;
    }
    proof {
        assert(out@ =~= sp_phase_repl(sview, k as int));
        lemma_repl(sview, k as int, by_rms);
        assert forall|i: int| 0 <= i < out@.len() - 1 implies sp_le(
            if by_rms {
                (#[trigger] out@[i]).rms_error
            } else {
                out@[i].max_error
            },
            if by_rms {
                out@[i + 1].rms_error
            } else {
                out@[i + 1].max_error
            },
        ) by {
            assert(sp_fit(out@[i], by_rms) <= sp_fit(out@[i + 1], by_rms));
            assert(!sp_is_nan(out@[i].max_error) && !sp_is_nan(out@[i].rms_error));
            assert(!sp_is_nan(out@[i + 1].max_error) && !sp_is_nan(out@[i + 1].rms_error));
        }
    }
    out
}

} // verus!
