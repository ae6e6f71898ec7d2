//! The run configuration: operator choices, termination limits, probability
//! settings and the allele universe, together with its validation.
//!
//! Probabilities are expressed in parts per million: `PROB_SCALE` stands for
//! probability one, so every probability value lies in `[0, PROB_SCALE]`.

use vstd::prelude::*;
use crate::candidate::Gene;

verus! {

/// Probability one, in parts per million.
pub const PROB_SCALE: u32 = 1_000_000;

/// The optimization direction: whether a lower or a higher fitness is better.
#[derive(Clone, Copy, PartialEq, Eq, Structural, Debug)]
pub enum ProblemSolving {
    Minimization,
    Maximization,
}

/// Log verbosity requested by the caller. The engine itself performs no
/// output; the level is carried for the surrounding program to honour.
#[derive(Clone, Copy, PartialEq, Eq, Structural, Debug)]
pub enum LogLevel {
    Off,
    Error,
    Warn,
    Info,
}

/// The family of parent-pair selection operators.
#[derive(Clone, Copy, PartialEq, Eq, Structural, Debug)]
pub enum Selection {
    Random,
    Tournament,
}

/// The family of recombination operators. Cycle crossover is permutation
/// safe; single-point crossover applies only when alleles may repeat.
#[derive(Clone, Copy, PartialEq, Eq, Structural, Debug)]
pub enum Crossover {
    Cycle,
    SinglePoint,
}

/// The family of perturbation operators.
#[derive(Clone, Copy, PartialEq, Eq, Structural, Debug)]
pub enum Mutation {
    Swap,
}

/// The family of next-generation composition operators.
#[derive(Clone, Copy, PartialEq, Eq, Structural, Debug)]
pub enum Survivor {
    Fitness,
}

/// Why a run stopped. Exactly one cause is reported at stop.
#[derive(Clone, Copy, PartialEq, Eq, Structural, Debug)]
pub enum TerminationCause {
    /// The run has not terminated yet (only seen by per-generation callbacks).
    NotTerminated,
    /// The configured generation limit was reached.
    GenerationLimit,
    /// The best individual reached or surpassed the configured target.
    FitnessTargetReached,
}

/// A fatal configuration error, detected before any generation executes.
#[derive(Clone, Copy, PartialEq, Eq, Structural, Debug)]
pub enum ConfigurationError {
    /// The configured population size is zero or negative.
    PopulationSizeNotPositive,
    /// The configured number of couples is zero or negative.
    NumberOfCouplesNotPositive,
    /// Alleles may not repeat, yet the chromosome is longer than the
    /// allele universe, so no valid genotype exists.
    AlleleUniverseSmallerThanChromosome,
    /// An adaptive probability range has its minimum above its maximum.
    AdaptiveBoundsInverted,
}

/// The whole configuration of one run, immutable once the run starts.
pub struct Configuration {
    pub problem_solving: ProblemSolving,
    pub log_level: LogLevel,
    pub max_generations: i32,
    pub fitness_target: Option<i64>,
    pub best_individual_by_generation: bool,
    pub population_size: i32,
    pub number_of_couples: i32,
    pub selection_method: Selection,
    pub crossover_method: Crossover,
    pub mutation_method: Mutation,
    pub survivor_method: Survivor,
    pub adaptive_ga: bool,
    pub crossover_probability: u32,
    pub crossover_probability_min: u32,
    pub crossover_probability_max: u32,
    pub mutation_probability: u32,
    pub mutation_probability_min: u32,
    pub mutation_probability_max: u32,
    pub threads: i32,
    pub alleles: Vec<Gene>,
    pub genes_per_individual: i32,
    pub alleles_can_be_repeated: bool,
}

/// The configuration checks, in the order they are reported: population
/// size, couple count, allele universe against chromosome length, adaptive
/// bounds.
pub open spec fn spec_validate(c: &Configuration) -> Option<ConfigurationError> {
    if c.population_size <= 0 {
        Some(ConfigurationError::PopulationSizeNotPositive)
    } else if c.number_of_couples <= 0 {
        Some(ConfigurationError::NumberOfCouplesNotPositive)
    } else if !c.alleles_can_be_repeated && c.genes_per_individual as int > c.alleles@.len() {
        Some(ConfigurationError::AlleleUniverseSmallerThanChromosome)
    } else if c.adaptive_ga && (c.crossover_probability_min > c.crossover_probability_max
        || c.mutation_probability_min > c.mutation_probability_max) {
        Some(ConfigurationError::AdaptiveBoundsInverted)
    } else {
        None
    }
}

impl Configuration {
    /// Check this configuration; a run refuses to start on `Some` error.
    pub fn validate(&self) -> (r: Option<ConfigurationError>)
        ensures
            r == spec_validate(self),
    {
        if self.population_size <= 0 {
            Some(ConfigurationError::PopulationSizeNotPositive)
        } else if self.number_of_couples <= 0 {
            Some(ConfigurationError::NumberOfCouplesNotPositive)
        } else if !self.alleles_can_be_repeated && self.genes_per_individual > 0
            && self.genes_per_individual as usize > self.alleles.len() {
            Some(ConfigurationError::AlleleUniverseSmallerThanChromosome)
        } else if self.adaptive_ga && (self.crossover_probability_min > self.crossover_probability_max
            || self.mutation_probability_min > self.mutation_probability_max) {
            Some(ConfigurationError::AdaptiveBoundsInverted)
        } else {
            None
        }
    }
}

} // verus!
