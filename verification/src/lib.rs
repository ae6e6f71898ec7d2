//! A generational evolutionary-optimization engine.
//!
//! The engine evolves a fixed-size population of candidate solutions toward
//! an optimum of a caller-supplied fitness function, through repeated rounds
//! of selection, recombination, mutation and survivor replacement, with
//! optional adaptive tuning of the operator probabilities.

pub mod candidate;
pub mod config;
pub mod crossover;
pub mod evaluator;
pub mod fitness;
pub mod ga;
pub mod mutation;
pub mod population;
pub mod rng;
pub mod scheduler;
pub mod selection;
pub mod survivor;
