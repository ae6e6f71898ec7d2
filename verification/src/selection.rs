//! Parent-pair selection. Both operators read the population only and
//! return index pairs that always lie inside the population; which pairs
//! they return is a function of the population and the generator state,
//! spelled out by the spec functions below.

use vstd::prelude::*;
use crate::candidate::Genotype;
use crate::config::{ProblemSolving, Selection};
use crate::population::{fitness_better_eq, fitness_better_eq_exec};
use crate::rng::{Prng, spec_advance, spec_output, spec_pair_first, spec_pair_second};

verus! {

/// Every pair selects two valid indices of a population of length `n`.
pub open spec fn couples_in_bounds(s: Seq<(usize, usize)>, n: int) -> bool {
    forall|k: int| 0 <= k < s.len() ==> (#[trigger] s[k]).0 < n && s[k].1 < n
}

/// The index a random draw from state `s` picks in a population of
/// length `n`.
pub open spec fn spec_random_pick(s: u64, n: u64) -> usize {
    (spec_output(spec_advance(s)) % n) as usize
}

/// The index one tournament of size two picks from state `s`: the fitter
/// (for direction `d`) of two distinct uniformly drawn individuals, or
/// index 0 when the population has a single member.
pub open spec fn spec_tournament_pick(d: ProblemSolving, pop: Seq<Genotype>, s: u64) -> usize {
    if pop.len() < 2 {
        0
    } else {
        let a = spec_pair_first(s, pop.len() as u64) as int;
        let b = spec_pair_second(s, pop.len() as u64) as int;
        if fitness_better_eq(d, pop[a].fitness, pop[b].fitness) {
            a as usize
        } else {
            b as usize
        }
    }
}

/// The generator state after one tournament (no draw happens when the
/// population has a single member).
pub open spec fn spec_pick_state(n: u64, s: u64) -> u64 {
    if n < 2 {
        s
    } else {
        spec_advance(spec_advance(s))
    }
}

/// The parent pair selected from state `s`.
pub open spec fn spec_couple(
    method: Selection,
    d: ProblemSolving,
    pop: Seq<Genotype>,
    s: u64,
) -> (usize, usize) {
    match method {
        Selection::Random => (
            spec_random_pick(s, pop.len() as u64),
            spec_random_pick(spec_advance(s), pop.len() as u64),
        ),
        Selection::Tournament => (
            spec_tournament_pick(d, pop, s),
            spec_tournament_pick(d, pop, spec_pick_state(pop.len() as u64, s)),
        ),
    }
}

/// The generator state after one parent pair was selected.
pub open spec fn spec_couple_state(method: Selection, n: u64, s: u64) -> u64 {
    match method {
        Selection::Random => spec_advance(spec_advance(s)),
        Selection::Tournament => spec_pick_state(n, spec_pick_state(n, s)),
    }
}

/// The generator state after `k` parent pairs were selected.
pub open spec fn spec_states(method: Selection, n: u64, s0: u64, k: int) -> u64
    decreases k,
{
    if k <= 0 {
        s0
    } else {
        spec_couple_state(method, n, spec_states(method, n, s0, k - 1))
    }
}

/// One tournament of size two: draw two distinct individuals uniformly
/// (or the single individual, if there is only one) and return the index
/// of the fitter of the two for the direction `d`.
pub fn tournament_pick(d: ProblemSolving, pop: &Vec<Genotype>, rng: &mut Prng) -> (r: usize)
    requires
        pop@.len() > 0,
        pop@.len() <= u64::MAX,
    ensures
        r < pop@.len(),
        r == spec_tournament_pick(d, pop@, old(rng).state),
        final(rng).state == spec_pick_state(pop@.len() as u64, old(rng).state),
{
    let n = pop.len();
    if n < 2 {
        0
    } else {
        let pair = rng.distinct_pair(n);
        let a = pair.0;
        let b = pair.1;
        if fitness_better_eq_exec(d, pop[a].fitness, pop[b].fitness) {
            a
        } else {
            b
        }
    }
}

/// Choose `number_of_couples` parent pairs from the population, without
/// side effects on it. Random selection draws each parent uniformly with
/// replacement; tournament selection biases each slot toward fitter
/// individuals while bounding the selection pressure by the tournament
/// size. Every returned index lies in `[0, pop.len())`, and the chosen
/// pairs are a function of the population and the generator state.
pub fn select_couples(
    method: Selection,
    d: ProblemSolving,
    pop: &Vec<Genotype>,
    number_of_couples: usize,
    rng: &mut Prng,
) -> (r: Vec<(usize, usize)>)
    requires
        pop@.len() > 0,
        pop@.len() <= u64::MAX,
    ensures
        r@.len() == number_of_couples,
        couples_in_bounds(r@, pop@.len() as int),
        forall|t: int| 0 <= t < number_of_couples ==> (#[trigger] r@[t]) == spec_couple(
            method,
            d,
            pop@,
            spec_states(method, pop@.len() as u64, old(rng).state, t),
        ),
        final(rng).state == spec_states(
            method,
            pop@.len() as u64,
            old(rng).state,
            number_of_couples as int,
        ),
{
    let n = pop.len();
    let mut out: Vec<(usize, usize)> = Vec::new();
    let mut k: usize = 0;
    while k < number_of_couples
        invariant
            k <= number_of_couples,
            out@.len() == k,
            pop@.len() == n,
            n > 0,
            n <= u64::MAX,
            couples_in_bounds(out@, n as int),
            rng.state == spec_states(method, n as u64, old(rng).state, k as int),
            forall|t: int| 0 <= t < k ==> (#[trigger] out@[t]) == spec_couple(
                method,
                d,
                pop@,
                spec_states(method, n as u64, old(rng).state, t),
            ),
        decreases number_of_couples - k,
    {
        let couple: (usize, usize) = match method {
            Selection::Random => {
                let a = rng.index_below(n);
                let b = rng.index_below(n);
                (a, b)
            },
            Selection::Tournament => {
                let a = tournament_pick(d, pop, rng);
                let b = tournament_pick(d, pop, rng);
                (a, b)
            },
        };
        out.push(couple);
        k = k + 1;
        proof {
            assert(spec_states(method, n as u64, old(rng).state, k as int)
                == spec_couple_state(
                method,
                n as u64,
                spec_states(method, n as u64, old(rng).state, k as int - 1),
            ));
        }
    }
    out
}

} // verus!
