//! The engine: owns the configuration, runs the generation loop, enforces
//! the termination conditions and returns the final population.
//!
//! One generation: selection picks parent pairs, the scheduler fixes the
//! probabilities of the generation, crossover recombines each pair (or
//! copies it), mutation perturbs each offspring, the evaluator refreshes
//! the offspring's fitness, and the survivor operator merges parents and
//! offspring back into a population of the configured size. Termination
//! is checked in priority order: the generation limit first, then the
//! optional fitness target. Exactly one cause is reported.

use vstd::prelude::*;
use vstd::multiset::Multiset;
use crate::candidate::{copy_dna, FitnessFunction, Gene, Genotype};
use crate::config::{
    Configuration, ConfigurationError, Crossover, LogLevel, Mutation, ProblemSolving, Selection,
    spec_validate, Survivor, TerminationCause, PROB_SCALE,
};
use crate::crossover::{cycle_crossover, distinct_ids, single_point_crossover};
use crate::evaluator::{evaluate_chunked, lemma_evaluation_is_map, spec_evaluated};
use crate::mutation::swap_mutation;
use crate::population::{
    fitness_better_eq, fitness_better_eq_exec, Population, sort_by_rank, sorted_by_rank,
};
use crate::selection::{couples_in_bounds, select_couples};
use crate::survivor::survivor_fitness;

verus! {

/// Every genotype's dna is a duplicate-free permutation of the first
/// genotype's alleles: the coherence a permutation encoding needs.
pub open spec fn permutation_coherent(s: Seq<Genotype>) -> bool {
    forall|i: int| 0 <= i < s.len() ==> distinct_ids((#[trigger] s[i]).dna@)
        && s[i].dna@.to_multiset() == s[0].dna@.to_multiset()
}

/// What the engine asks of a seed population, under a configuration that
/// passed validation: one fresh (age 0) genotype per population slot, all
/// with the configured chromosome length; a permutation-coherent seed
/// wherever cycle crossover will run; and cycle crossover whenever
/// alleles may not repeat, since point-based crossover is excluded under
/// the no-repeat policy.
pub open spec fn valid_seed(c: &Configuration, seed: Seq<Genotype>) -> bool {
    &&& seed.len() == c.population_size as int
    &&& forall|i: int| 0 <= i < seed.len() ==> (#[trigger] seed[i]).age == 0
        && seed[i].dna@.len() == c.genes_per_individual as int
    &&& (c.crossover_method == Crossover::Cycle ==> permutation_coherent(seed))
    &&& (c.alleles_can_be_repeated || c.crossover_method == Crossover::Cycle)
}

/// The configured fitness target is reached by the best fitness `best`.
pub open spec fn target_met(c: &Configuration, best: i64) -> bool {
    match c.fitness_target {
        Some(t) => fitness_better_eq(c.problem_solving, best, t),
        None => false,
    }
}

fn target_reached(c: &Configuration, best: i64) -> (r: bool)
    ensures
        r == target_met(c, best),
{
    match c.fitness_target {
        Some(t) => fitness_better_eq_exec(c.problem_solving, best, t),
        None => false,
    }
}

/// A well-formed individual of a running population: configured
/// chromosome length, and, wherever cycle crossover runs, a duplicate-free
/// dna over the common allele multiset `allele_ms`.
pub open spec fn wf_individual(
    c: &Configuration,
    allele_ms: Multiset<Gene>,
    g: Genotype,
) -> bool {
    &&& g.dna@.len() == c.genes_per_individual as int
    &&& (c.crossover_method == Crossover::Cycle ==> distinct_ids(g.dna@)
        && g.dna@.to_multiset() == allele_ms)
}

/// The per-generation callback contract: an observer is handed the index
/// of the completed generation, a read-only snapshot of the population
/// after the survivor merge, and the termination cause if one applies
/// (otherwise `NotTerminated`). The engine is synchronous: the observer
/// runs inline on the controlling thread, between generations. Every
/// invocation is guaranteed a positive generation index and a nonempty
/// population in ranking order.
pub trait GenerationObserver {
    fn on_generation(
        &mut self,
        generation: i32,
        population: &Population,
        cause: TerminationCause,
    )
        requires
            generation >= 1,
            population.individuals@.len() > 0,
            exists|d: ProblemSolving| sorted_by_rank(d, population.individuals@),
    ;
}

/// The observer a plain `run` uses: it ignores every generation.
pub struct SilentObserver;

impl GenerationObserver for SilentObserver {
    fn on_generation(
        &mut self,
        _generation: i32,
        _population: &Population,
        _cause: TerminationCause,
    ) {
    }
}

/// What a run with a valid configuration guarantees of its result: a
/// population of the configured size in ranking order, every individual
/// carrying the fitness of its own dna, the configured chromosome length
/// and — under cycle crossover — a duplicate-free dna over the seed's
/// common allele multiset; a generation count within the configured
/// limit; exactly one termination cause, the generation limit taking
/// priority; a best-fitness trace entry per generation (plus the seed)
/// when tracking is on; and, when no generation ran, the evaluated seed
/// itself, merely reordered.
pub open spec fn run_ok_post<E: FitnessFunction>(
    c: &Configuration,
    f: &E,
    seed: Seq<Genotype>,
    res: GaResult,
) -> bool {
    &&& res.population.individuals@.len() == c.population_size as int
    &&& sorted_by_rank(c.problem_solving, res.population.individuals@)
    &&& forall|i: int| 0 <= i < res.population.individuals@.len()
        ==> (#[trigger] res.population.individuals@[i]).fitness == f.fitness_spec(
        res.population.individuals@[i].dna@,
    ) && wf_individual(c, seed[0].dna@.to_multiset(), res.population.individuals@[i])
        && 0 <= res.population.individuals@[i].age <= res.generations_run
    &&& 0 <= res.generations_run
    &&& (c.max_generations >= 0 ==> res.generations_run <= c.max_generations)
    &&& (res.termination == TerminationCause::GenerationLimit || res.termination
        == TerminationCause::FitnessTargetReached)
    &&& (res.termination == TerminationCause::GenerationLimit <==> res.generations_run
        >= c.max_generations)
    &&& (res.termination == TerminationCause::FitnessTargetReached ==> target_met(
        c,
        res.population.individuals@[0].fitness,
    ))
    &&& res.best_fitness_by_generation@.len() == if c.best_individual_by_generation {
        res.generations_run + 1
    } else {
        0
    }
    &&& (c.best_individual_by_generation
        ==> res.best_fitness_by_generation@[res.generations_run as int]
        == res.population.individuals@[0].fitness)
    &&& (res.generations_run == 0 ==> res.population.individuals@.to_multiset()
        == spec_evaluated(f, seed).to_multiset())
    &&& (c.max_generations <= 0 ==> res.generations_run == 0 && res.termination
        == TerminationCause::GenerationLimit)
}

/// What a finished run returns.
pub struct GaResult {
    /// The final population, in ranking order: index 0 is the best.
    pub population: Population,
    /// The best fitness after the seed evaluation and after each
    /// generation, if tracking was configured; empty otherwise.
    pub best_fitness_by_generation: Vec<i64>,
    /// The one condition that stopped the run.
    pub termination: TerminationCause,
    /// How many generations were produced.
    pub generations_run: i32,
}

/// The engine, assembled builder-style and then run.
pub struct Ga {
    pub config: Configuration,
}

impl Ga {
    /// A fresh engine with neutral settings: minimization, one generation,
    /// one couple, fixed probabilities of one, population of one.
    pub fn new() -> (r: Ga)
        ensures
            r.config.problem_solving == ProblemSolving::Minimization,
            r.config.log_level == LogLevel::Off,
            r.config.max_generations == 1,
            r.config.fitness_target == None::<i64>,
            r.config.best_individual_by_generation == false,
            r.config.population_size == 1,
            r.config.number_of_couples == 1,
            r.config.selection_method == Selection::Random,
            r.config.crossover_method == Crossover::Cycle,
            r.config.mutation_method == Mutation::Swap,
            r.config.survivor_method == Survivor::Fitness,
            r.config.adaptive_ga == false,
            r.config.crossover_probability == PROB_SCALE,
            r.config.crossover_probability_min == 0u32,
            r.config.crossover_probability_max == PROB_SCALE,
            r.config.mutation_probability == PROB_SCALE,
            r.config.mutation_probability_min == 0u32,
            r.config.mutation_probability_max == PROB_SCALE,
            r.config.threads == 1i32,
            r.config.alleles@ == Seq::<Gene>::empty(),
            r.config.genes_per_individual == 0i32,
            r.config.alleles_can_be_repeated == false,
    {
        Ga {
            config: Configuration {
                problem_solving: ProblemSolving::Minimization,
                log_level: LogLevel::Off,
                max_generations: 1,
                fitness_target: None,
                best_individual_by_generation: false,
                population_size: 1,
                number_of_couples: 1,
                selection_method: Selection::Random,
                crossover_method: Crossover::Cycle,
                mutation_method: Mutation::Swap,
                survivor_method: Survivor::Fitness,
                adaptive_ga: false,
                crossover_probability: PROB_SCALE,
                crossover_probability_min: 0,
                crossover_probability_max: PROB_SCALE,
                mutation_probability: PROB_SCALE,
                mutation_probability_min: 0,
                mutation_probability_max: PROB_SCALE,
                threads: 1,
                alleles: Vec::new(),
                genes_per_individual: 0,
                alleles_can_be_repeated: false,
            },
        }
    }

    pub fn with_problem_solving(self, v: ProblemSolving) -> (r: Ga)
        ensures
            r.config == (Configuration { problem_solving: v, ..self.config }),
    {
        Ga { config: Configuration { problem_solving: v, ..self.config } }
    }

    pub fn with_logs(self, v: LogLevel) -> (r: Ga)
        ensures
            r.config == (Configuration { log_level: v, ..self.config }),
    {
        Ga { config: Configuration { log_level: v, ..self.config } }
    }

    pub fn with_max_generations(self, v: i32) -> (r: Ga)
        ensures
            r.config == (Configuration { max_generations: v, ..self.config }),
    {
        Ga { config: Configuration { max_generations: v, ..self.config } }
    }

    pub fn with_fitness_target(self, v: i64) -> (r: Ga)
        ensures
            r.config == (Configuration { fitness_target: Some(v), ..self.config }),
    {
        Ga { config: Configuration { fitness_target: Some(v), ..self.config } }
    }

    pub fn with_best_individual_by_generation(self, v: bool) -> (r: Ga)
        ensures
            r.config == (Configuration { best_individual_by_generation: v, ..self.config }),
    {
        Ga { config: Configuration { best_individual_by_generation: v, ..self.config } }
    }

    pub fn with_population_size(self, v: i32) -> (r: Ga)
        ensures
            r.config == (Configuration { population_size: v, ..self.config }),
    {
        Ga { config: Configuration { population_size: v, ..self.config } }
    }

    pub fn with_number_of_couples(self, v: i32) -> (r: Ga)
        ensures
            r.config == (Configuration { number_of_couples: v, ..self.config }),
    {
        Ga { config: Configuration { number_of_couples: v, ..self.config } }
    }

    pub fn with_selection_method(self, v: Selection) -> (r: Ga)
        ensures
            r.config == (Configuration { selection_method: v, ..self.config }),
    {
        Ga { config: Configuration { selection_method: v, ..self.config } }
    }

    pub fn with_crossover_method(self, v: Crossover) -> (r: Ga)
        ensures
            r.config == (Configuration { crossover_method: v, ..self.config }),
    {
        Ga { config: Configuration { crossover_method: v, ..self.config } }
    }

    pub fn with_mutation_method(self, v: Mutation) -> (r: Ga)
        ensures
            r.config == (Configuration { mutation_method: v, ..self.config }),
    {
        Ga { config: Configuration { mutation_method: v, ..self.config } }
    }

    pub fn with_survivor_method(self, v: Survivor) -> (r: Ga)
        ensures
            r.config == (Configuration { survivor_method: v, ..self.config }),
    {
        Ga { config: Configuration { survivor_method: v, ..self.config } }
    }

    pub fn with_adaptive_ga(self, v: bool) -> (r: Ga)
        ensures
            r.config == (Configuration { adaptive_ga: v, ..self.config }),
    {
        Ga { config: Configuration { adaptive_ga: v, ..self.config } }
    }

    pub fn with_crossover_probability(self, v: u32) -> (r: Ga)
        ensures
            r.config == (Configuration { crossover_probability: v, ..self.config }),
    {
        Ga { config: Configuration { crossover_probability: v, ..self.config } }
    }

    pub fn with_crossover_probability_min(self, v: u32) -> (r: Ga)
        ensures
            r.config == (Configuration { crossover_probability_min: v, ..self.config }),
    {
        Ga { config: Configuration { crossover_probability_min: v, ..self.config } }
    }

    pub fn with_crossover_probability_max(self, v: u32) -> (r: Ga)
        ensures
            r.config == (Configuration { crossover_probability_max: v, ..self.config }),
    {
        Ga { config: Configuration { crossover_probability_max: v, ..self.config } }
    }

    pub fn with_mutation_probability(self, v: u32) -> (r: Ga)
        ensures
            r.config == (Configuration { mutation_probability: v, ..self.config }),
    {
        Ga { config: Configuration { mutation_probability: v, ..self.config } }
    }

    pub fn with_mutation_probability_min(self, v: u32) -> (r: Ga)
        ensures
            r.config == (Configuration { mutation_probability_min: v, ..self.config }),
    {
        Ga { config: Configuration { mutation_probability_min: v, ..self.config } }
    }

    pub fn with_mutation_probability_max(self, v: u32) -> (r: Ga)
        ensures
            r.config == (Configuration { mutation_probability_max: v, ..self.config }),
    {
        Ga { config: Configuration { mutation_probability_max: v, ..self.config } }
    }

    pub fn with_threads(self, v: i32) -> (r: Ga)
        ensures
            r.config == (Configuration { threads: v, ..self.config }),
    {
        Ga { config: Configuration { threads: v, ..self.config } }
    }

    pub fn with_alleles(self, v: Vec<Gene>) -> (r: Ga)
        ensures
            r.config == (Configuration { alleles: v, ..self.config }),
    {
        Ga { config: Configuration { alleles: v, ..self.config } }
    }

    pub fn with_genes_per_individual(self, v: i32) -> (r: Ga)
        ensures
            r.config == (Configuration { genes_per_individual: v, ..self.config }),
    {
        Ga { config: Configuration { genes_per_individual: v, ..self.config } }
    }

    pub fn with_alleles_can_be_repeated(self, v: bool) -> (r: Ga)
        ensures
            r.config == (Configuration { alleles_can_be_repeated: v, ..self.config }),
    {
        Ga { config: Configuration { alleles_can_be_repeated: v, ..self.config } }
    }

    /// Run the engine on the seed population, drawing randomness from the
    /// given seed. A run is a mathematical function of the configuration,
    /// the seed population, the fitness function and the random seed.
    ///
    /// An invalid configuration is reported before anything runs. A valid
    /// run returns a population of the configured size in ranking order,
    /// every individual carrying the fitness of its own dna, the
    /// configured chromosome length, and — under cycle crossover — a
    /// duplicate-free dna over the seed's common allele multiset. The run
    /// stops with the generation limit (priority) or the fitness target,
    /// and reports exactly the cause that applied; with the limit at zero
    /// the seed is returned after evaluation alone, reordered but
    /// otherwise untouched.
    pub fn run<E: FitnessFunction>(&self, f: &E, seed: Vec<Genotype>, rng_seed: u64) -> (r:
        Result<GaResult, ConfigurationError>)
        requires
            spec_validate(&self.config) == None::<ConfigurationError> ==> valid_seed(
                &self.config,
                seed@,
            ),
        ensures
            r is Err <==> spec_validate(&self.config) is Some,
            r matches Err(e) ==> spec_validate(&self.config) == Some(e),
            r matches Ok(res) ==> run_ok_post(&self.config, f, seed@, res),
    {
        let mut observer = SilentObserver;
        self.run_with_callback(f, seed, rng_seed, &mut observer)
    }

    /// Like `run`, and additionally hands every completed generation to
    /// the observer: the generation index, the population just merged,
    /// and the termination cause if the run stops there.
    pub fn run_with_callback<E: FitnessFunction, O: GenerationObserver>(
        &self,
        f: &E,
        seed: Vec<Genotype>,
        rng_seed: u64,
        observer: &mut O,
    ) -> (r: Result<GaResult, ConfigurationError>)
        requires
            spec_validate(&self.config) == None::<ConfigurationError> ==> valid_seed(
                &self.config,
                seed@,
            ),
        ensures
            r is Err <==> spec_validate(&self.config) is Some,
            r matches Err(e) ==> spec_validate(&self.config) == Some(e),
            r matches Ok(res) ==> run_ok_post(&self.config, f, seed@, res),
    {
        if let Some(e) = self.config.validate() {
            return Err(e);
        }
        let c = &self.config;
        let ghost allele_ms: Multiset<Gene> = seed@[0].dna@.to_multiset();
        let size: usize = c.population_size as usize;
        let threads: usize = if c.threads <= 0 {
            1
        } else {
            c.threads as usize
        };
        let mut rng = crate::rng::Prng::new(rng_seed);
        let mut pop = seed;
        evaluate_chunked(f, &mut pop, threads);
        proof {
            lemma_evaluation_is_map(f, seed@, pop@);
        }
        let ghost evaluated_seed: Seq<Genotype> = pop@;
        let mut pop = sort_by_rank(c.problem_solving, pop);
        let mut trace: Vec<i64> = Vec::new();
        if c.best_individual_by_generation {
            trace.push(pop[0].fitness);
        }
        let mut gen: i32 = 0;
        let mut stop: bool = true;
        if gen < c.max_generations {
            stop = target_reached(c, pop[0].fitness);
        }
        proof {
            assert forall|i: int| 0 <= i < pop@.len() implies pop@.to_multiset().count(
                #[trigger] pop@[i],
            ) > 0 by {
                broadcast use vstd::seq_lib::group_to_multiset_ensures;

                assert(pop@.contains(pop@[i]));
            }
            assert forall|i: int| 0 <= i < pop@.len() implies (#[trigger] pop@[i]).fitness
                == f.fitness_spec(pop@[i].dna@) && wf_individual(c, allele_ms, pop@[i])
                && 0 <= pop@[i].age <= gen as int by {
                broadcast use vstd::seq_lib::group_to_multiset_ensures;

                assert(evaluated_seed.to_multiset().count(pop@[i]) > 0);
                assert(evaluated_seed.contains(pop@[i]));
                let j = choose|j: int| 0 <= j < evaluated_seed.len() && evaluated_seed[j]
                    == pop@[i];
                assert(evaluated_seed[j] == (Genotype {
                    fitness: f.fitness_spec(seed@[j].dna@),
                    ..seed@[j]
                }));
            }
        }
        while !stop
            invariant
                spec_validate(c) == None::<ConfigurationError>,
                valid_seed(c, seed@),
                c == &self.config,
                allele_ms == seed@[0].dna@.to_multiset(),
                size == c.population_size as usize,
                pop@.len() == size,
                sorted_by_rank(c.problem_solving, pop@),
                forall|i: int| 0 <= i < pop@.len() ==> (#[trigger] pop@[i]).fitness
                    == f.fitness_spec(pop@[i].dna@) && wf_individual(c, allele_ms, pop@[i])
                    && 0 <= pop@[i].age <= gen as int,
                0 <= gen,
                c.max_generations >= 0 ==> gen <= c.max_generations,
                c.max_generations < 0 ==> gen == 0,
                stop == (gen >= c.max_generations || target_met(c, pop@[0].fitness)),
                trace@.len() == if c.best_individual_by_generation {
                    gen + 1
                } else {
                    0
                },
                c.best_individual_by_generation ==> trace@[gen as int] == pop@[0].fitness,
                gen == 0 ==> pop@.to_multiset() == spec_evaluated(f, seed@).to_multiset(),
            decreases c.max_generations - gen,
        {
            let probs = crate::scheduler::scheduled_probabilities(c, gen + 1);
            let couples = select_couples(
                c.selection_method,
                c.problem_solving,
                &pop,
                c.number_of_couples as usize,
                &mut rng,
            );
            let mut offspring: Vec<Genotype> = Vec::new();
            let mut k: usize = 0;
            while k < couples.len()
                invariant
                    spec_validate(c) == None::<ConfigurationError>,
                    valid_seed(c, seed@),
                    k <= couples@.len(),
                    couples_in_bounds(couples@, pop@.len() as int),
                    pop@.len() == size,
                    size > 0,
                    forall|i: int| 0 <= i < pop@.len() ==> (#[trigger] pop@[i]).fitness
                        == f.fitness_spec(pop@[i].dna@) && wf_individual(c, allele_ms, pop@[i]),
                    forall|i: int| 0 <= i < offspring@.len()
                        ==> (#[trigger] offspring@[i]).age == 0 && wf_individual(
                        c,
                        allele_ms,
                        offspring@[i],
                    ),
                decreases couples@.len() - k,
            {
                let pair = couples[k];
                let a = pair.0;
                let b = pair.1;
                let gate = rng.below(PROB_SCALE as u64);
                let parents_dna: (Vec<Gene>, Vec<Gene>) = if gate < probs.0 as u64 {
                    match c.crossover_method {
                        Crossover::Cycle => cycle_crossover(&pop[a].dna, &pop[b].dna),
                        Crossover::SinglePoint => {
                            let cut = rng.index_below(pop[a].dna.len() + 1);
                            single_point_crossover(&pop[a].dna, &pop[b].dna, cut)
                        },
                    }
                } else {
                    (copy_dna(&pop[a].dna), copy_dna(&pop[b].dna))
                };
                let (d1, d2) = parents_dna;
                let mut g1 = Genotype::new(d1);
                let mut g2 = Genotype::new(d2);
                match c.mutation_method {
                    Mutation::Swap => {
                        let gate1 = rng.below(PROB_SCALE as u64);
                        if gate1 < probs.1 as u64 && g1.dna.len() >= 2 {
                            swap_mutation(&mut g1, &mut rng);
                        }
                        let gate2 = rng.below(PROB_SCALE as u64);
                        if gate2 < probs.1 as u64 && g2.dna.len() >= 2 {
                            swap_mutation(&mut g2, &mut rng);
                        }
                    },
                }
                offspring.push(g1);
                offspring.push(g2);
                k = k + 1;
            }
            evaluate_chunked(f, &mut offspring, threads);
            // The parents have survived one more generation.
            let mut idx: usize = 0;
            let ghost pop_before_aging: Seq<Genotype> = pop@;
            while idx < pop.len()
                invariant
                    idx <= pop@.len(),
                    pop@.len() == pop_before_aging.len(),
                    gen < i32::MAX,
                    forall|i: int| 0 <= i < pop@.len() ==> 0 <= (#[trigger] pop_before_aging[i]).age
                        <= gen as int,
                    forall|i: int| 0 <= i < idx ==> (#[trigger] pop@[i]) == (Genotype {
                        age: (pop_before_aging[i].age + 1) as i32,
                        ..pop_before_aging[i]
                    }),
                    forall|i: int| idx <= i < pop@.len() ==> (#[trigger] pop@[i])
                        == pop_before_aging[i],
                decreases pop@.len() - idx,
            {
                let g = &mut pop[idx];
                g.age = g.age + 1;
                idx = idx + 1;
            }
            proof {
                assert forall|i: int| 0 <= i < pop@.len() implies (#[trigger] pop@[i]).fitness
                    == f.fitness_spec(pop@[i].dna@) && wf_individual(c, allele_ms, pop@[i])
                    && 0 <= pop@[i].age <= gen as int + 1 by {
                    assert(pop@[i] == (Genotype {
                        age: (pop_before_aging[i].age + 1) as i32,
                        ..pop_before_aging[i]
                    }));
                }
            }
            let ghost pool: Seq<Genotype> = pop@ + offspring@;
            let pop_next = survivor_fitness(c.problem_solving, pop, offspring, size);
            pop = pop_next;
            proof {
                broadcast use vstd::seq_lib::group_to_multiset_ensures;
                broadcast use vstd::multiset::group_multiset_axioms;

                assert forall|i: int| 0 <= i < pop@.len() implies (#[trigger] pop@[i]).fitness
                    == f.fitness_spec(pop@[i].dna@) && wf_individual(c, allele_ms, pop@[i])
                    && 0 <= pop@[i].age <= gen as int + 1 by {
                    assert(pop@.contains(pop@[i]));
                    assert(pop@.to_multiset().count(pop@[i]) > 0);
                    assert(pool.to_multiset().count(pop@[i]) > 0);
                    assert(pool.contains(pop@[i]));
                    let j = choose|j: int| 0 <= j < pool.len() && pool[j] == pop@[i];
                }
            }
            gen = gen + 1;
            if c.best_individual_by_generation {
                trace.push(pop[0].fitness);
            }
            if gen >= c.max_generations {
                stop = true;
            } else {
                stop = target_reached(c, pop[0].fitness);
            }
            let cause_now = if gen >= c.max_generations {
                TerminationCause::GenerationLimit
            } else if stop {
                TerminationCause::FitnessTargetReached
            } else {
                TerminationCause::NotTerminated
            };
            let snapshot = Population { individuals: pop };
            proof {
                assert(sorted_by_rank(c.problem_solving, snapshot.individuals@));
            }
            observer.on_generation(gen, &snapshot, cause_now);
            pop = snapshot.individuals;
        }
        let termination = if gen >= c.max_generations {
            TerminationCause::GenerationLimit
        } else {
            TerminationCause::FitnessTargetReached
        };
        Ok(GaResult {
            population: Population::new(pop),
            best_fitness_by_generation: trace,
            termination,
            generations_run: gen,
        })
    }
}

} // verus!
