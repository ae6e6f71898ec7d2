//! The probability scheduler: decides, per generation, which crossover and
//! mutation probabilities apply.
//!
//! In fixed mode both probabilities are the configured constants. In
//! adaptive mode each probability is interpolated linearly in the
//! generation index between its configured bounds: at generation 0 it
//! equals the lower bound, at the final generation (`max_generations`) the
//! upper bound, and it never leaves `[min, max]`. The mapping is a pure
//! function of the generation index and the bounds, so it is deterministic.

use vstd::prelude::*;
use crate::config::{Configuration, PROB_SCALE};

verus! {

/// Clamp a probability to `[0, PROB_SCALE]`.
pub open spec fn spec_clamp_prob(p: u32) -> u32 {
    if p > PROB_SCALE {
        PROB_SCALE
    } else {
        p
    }
}

/// The linear interpolation between the clamped bounds, at generation `g`
/// of `mg`.
pub open spec fn spec_adaptive_prob(pmin: u32, pmax: u32, g: int, mg: int) -> u32 {
    let lo = spec_clamp_prob(pmin);
    let hi = spec_clamp_prob(pmax);
    if mg <= 0 || g <= 0 {
        lo
    } else if g >= mg {
        hi
    } else {
        (lo + (hi - lo) * g / mg) as u32
    }
}

/// The pair of probabilities (crossover, mutation) applied at generation
/// `g` under configuration `c`.
pub open spec fn spec_scheduled(c: &Configuration, g: int) -> (u32, u32) {
    if c.adaptive_ga {
        (
            spec_adaptive_prob(c.crossover_probability_min, c.crossover_probability_max, g, c.max_generations as int),
            spec_adaptive_prob(c.mutation_probability_min, c.mutation_probability_max, g, c.max_generations as int),
        )
    } else {
        (spec_clamp_prob(c.crossover_probability), spec_clamp_prob(c.mutation_probability))
    }
}

fn clamp_prob(p: u32) -> (r: u32)
    ensures
        r == spec_clamp_prob(p),
{
    if p > PROB_SCALE {
        PROB_SCALE
    } else {
        p
    }
}

fn adaptive_prob(pmin: u32, pmax: u32, g: i32, mg: i32) -> (r: u32)
    requires
        pmin <= pmax,
        0 <= g <= mg,
    ensures
        r == spec_adaptive_prob(pmin, pmax, g as int, mg as int),
        spec_clamp_prob(pmin) <= r <= spec_clamp_prob(pmax),
        g == 0 ==> r == spec_clamp_prob(pmin),
        g == mg && mg > 0 ==> r == spec_clamp_prob(pmax),
{
    let lo = clamp_prob(pmin);
    let hi = clamp_prob(pmax);
    if mg <= 0 || g <= 0 {
        lo
    } else if g >= mg {
        hi
    } else {
        proof {
            assert(lo <= hi && hi <= PROB_SCALE);
            assert(((hi - lo) as int) * (g as int) <= 1_000_000int * 0x8000_0000int)
                by (nonlinear_arith)
                requires
                    0 <= (hi - lo) as int <= 1_000_000,
                    0 <= g as int <= 0x8000_0000,
            ;
        }
        let num: u64 = ((hi - lo) as u64) * (g as u64);
        let q: u64 = num / (mg as u64);
        proof {
            assert((hi - lo) as int * (g as int) <= (hi - lo) as int * (mg as int))
                by (nonlinear_arith)
                requires
                    0 <= (hi - lo) as int,
                    0 < g as int <= mg as int,
            ;
            assert((hi - lo) as int * (mg as int) / (mg as int) == (hi - lo) as int)
                by (nonlinear_arith)
                requires
                    0 < mg as int,
            ;
            vstd::arithmetic::div_mod::lemma_div_is_ordered(
                (hi - lo) as int * (g as int),
                (hi - lo) as int * (mg as int),
                mg as int,
            );
            assert(q <= (hi - lo) as u64);
        }
        lo + (q as u32)
    }
}

/// The probabilities to apply at generation `g`: a pair in
/// `[0, PROB_SCALE]`, each within its configured (clamped) bounds in
/// adaptive mode, equal to its lower bound at generation 0 and to its
/// upper bound at the final generation.
pub fn scheduled_probabilities(c: &Configuration, g: i32) -> (r: (u32, u32))
    requires
        c.adaptive_ga ==> c.crossover_probability_min <= c.crossover_probability_max,
        c.adaptive_ga ==> c.mutation_probability_min <= c.mutation_probability_max,
        0 <= g <= c.max_generations,
    ensures
        r == spec_scheduled(c, g as int),
        r.0 <= PROB_SCALE,
        r.1 <= PROB_SCALE,
        c.adaptive_ga ==> spec_clamp_prob(c.crossover_probability_min) <= r.0
            <= spec_clamp_prob(c.crossover_probability_max),
        c.adaptive_ga ==> spec_clamp_prob(c.mutation_probability_min) <= r.1
            <= spec_clamp_prob(c.mutation_probability_max),
        c.adaptive_ga && g == 0 ==> r.0 == spec_clamp_prob(c.crossover_probability_min)
            && r.1 == spec_clamp_prob(c.mutation_probability_min),
        c.adaptive_ga && g == c.max_generations && g > 0 ==> r.0 == spec_clamp_prob(
            c.crossover_probability_max,
        ) && r.1 == spec_clamp_prob(c.mutation_probability_max),
{
    if c.adaptive_ga {
        let pc = adaptive_prob(c.crossover_probability_min, c.crossover_probability_max, g, c.max_generations);
        let pm = adaptive_prob(c.mutation_probability_min, c.mutation_probability_max, g, c.max_generations);
        (pc, pm)
    } else {
        (clamp_prob(c.crossover_probability), clamp_prob(c.mutation_probability))
    }
}

} // verus!

