use genetic::candidate::{FitnessFunction, Gene, Genotype};
use genetic::config::{
    ConfigurationError, Crossover, Mutation, ProblemSolving, Selection, Survivor,
    TerminationCause,
};
use genetic::fitness::CostMatrix;
use genetic::ga::Ga;

fn gene(id: i32) -> Gene {
    Gene::new(id)
}

fn genotype(ids: &[i32]) -> Genotype {
    let dna: Vec<Gene> = ids.iter().map(|&i| gene(i)).collect();
    Genotype::new(dna)
}

fn ids_of(g: &Genotype) -> Vec<i32> {
    g.dna.iter().map(|x| x.id).collect()
}

fn sorted_ids_of(g: &Genotype) -> Vec<i32> {
    let mut v = ids_of(g);
    v.sort();
    v
}

/// A small asymmetric cost matrix over three alleles.
fn small_matrix() -> CostMatrix {
    CostMatrix::new(vec![
        vec![0, 10, 20],
        vec![10, 0, 5],
        vec![20, 5, 0],
    ])
}

fn base_ga() -> Ga {
    Ga::new()
        .with_threads(1)
        .with_max_generations(1)
        .with_problem_solving(ProblemSolving::Minimization)
        .with_best_individual_by_generation(true)
        .with_number_of_couples(2)
        .with_selection_method(Selection::Tournament)
        .with_crossover_method(Crossover::Cycle)
        .with_mutation_method(Mutation::Swap)
        .with_survivor_method(Survivor::Fitness)
        .with_alleles(vec![gene(0), gene(1), gene(2)])
        .with_genes_per_individual(3)
        .with_alleles_can_be_repeated(false)
        .with_population_size(4)
        .with_adaptive_ga(false)
}

fn seed4() -> Vec<Genotype> {
    vec![
        genotype(&[0, 1, 2]),
        genotype(&[1, 0, 2]),
        genotype(&[2, 1, 0]),
        genotype(&[0, 2, 1]),
    ]
}

#[test]
fn cost_matrix_exact_tour_cost() {
    let m = small_matrix();
    // 0 -> 1 costs 10, 1 -> 2 costs 5.
    assert_eq!(m.fitness_of(&vec![gene(0), gene(1), gene(2)]), 15);
    // 0 -> 2 costs 20, 2 -> 1 costs 5.
    assert_eq!(m.fitness_of(&vec![gene(0), gene(2), gene(1)]), 25);
    // Too short for any edge.
    assert_eq!(m.fitness_of(&vec![gene(0)]), 0);
    assert_eq!(m.fitness_of(&vec![]), 0);
    // Unknown alleles cost nothing.
    assert_eq!(m.fitness_of(&vec![gene(7), gene(9)]), 0);
}

#[test]
fn fitness_evaluation_is_idempotent() {
    let m = small_matrix();
    let g = genotype(&[2, 0, 1]);
    let first = m.fitness_of(&g.dna);
    let second = m.fitness_of(&g.dna);
    assert_eq!(first, second);
    let mut g2 = g.duplicate();
    g2.calculate_fitness(&m);
    let once = g2.get_fitness();
    g2.calculate_fitness(&m);
    assert_eq!(g2.get_fitness(), once);
}

#[test]
fn accessors_round_trip() {
    let mut g = gene(4);
    assert_eq!(g.get_id(), 4);
    g.set_id(9);
    assert_eq!(g.get_id(), 9);

    let mut geno = genotype(&[1, 2]);
    assert_eq!(geno.get_age(), 0);
    geno.set_age(3);
    assert_eq!(geno.get_age(), 3);
    geno.set_fitness(-7);
    assert_eq!(geno.get_fitness(), -7);
    geno.set_dna(vec![gene(5)]);
    assert_eq!(geno.get_dna().len(), 1);
    assert_eq!(geno.get_dna()[0].id, 5);
    assert_eq!(geno.get_fitness(), -7);
}

#[test]
fn config_error_population_size() {
    let ga = base_ga().with_population_size(0);
    let r = ga.run(&small_matrix(), vec![], 1);
    assert_eq!(r.err(), Some(ConfigurationError::PopulationSizeNotPositive));
    let ga = base_ga().with_population_size(-3);
    let r = ga.run(&small_matrix(), vec![], 1);
    assert_eq!(r.err(), Some(ConfigurationError::PopulationSizeNotPositive));
}

#[test]
fn config_error_couples() {
    let ga = base_ga().with_number_of_couples(0);
    let r = ga.run(&small_matrix(), seed4(), 1);
    assert_eq!(r.err(), Some(ConfigurationError::NumberOfCouplesNotPositive));
}

#[test]
fn config_error_allele_universe_too_small() {
    let ga = base_ga().with_genes_per_individual(4);
    let r = ga.run(&small_matrix(), seed4(), 1);
    assert_eq!(
        r.err(),
        Some(ConfigurationError::AlleleUniverseSmallerThanChromosome)
    );
}

#[test]
fn config_error_adaptive_bounds_inverted() {
    let ga = base_ga()
        .with_adaptive_ga(true)
        .with_crossover_probability_min(800_000)
        .with_crossover_probability_max(400_000);
    let r = ga.run(&small_matrix(), seed4(), 1);
    assert_eq!(r.err(), Some(ConfigurationError::AdaptiveBoundsInverted));
}

#[test]
fn zero_generations_returns_evaluated_seed() {
    let m = small_matrix();
    // Already in ascending fitness order: 15, 25, 25, 30.
    let seed = vec![
        genotype(&[0, 1, 2]),
        genotype(&[0, 2, 1]),
        genotype(&[1, 2, 0]),
        genotype(&[2, 0, 1]),
    ];
    let expect_dna: Vec<Vec<i32>> = seed.iter().map(ids_of).collect();
    let expect_fit: Vec<i64> = seed.iter().map(|g| m.fitness_of(&g.dna)).collect();
    let ga = base_ga().with_max_generations(0);
    let res = ga.run(&m, seed, 42).unwrap();
    assert_eq!(res.generations_run, 0);
    assert_eq!(res.termination, TerminationCause::GenerationLimit);
    let pop = &res.population.individuals;
    assert_eq!(pop.len(), 4);
    for (i, g) in pop.iter().enumerate() {
        assert_eq!(ids_of(g), expect_dna[i]);
        assert_eq!(g.fitness, expect_fit[i]);
        assert_eq!(g.age, 0);
    }
    // One trace entry: the best fitness of the evaluated seed.
    assert_eq!(res.best_fitness_by_generation, vec![15]);
}

#[test]
fn end_to_end_one_generation_permutations() {
    // Seed of 4 genotypes with 3-gene permutation dna over 3 alleles,
    // one generation, tournament selection, cycle crossover, swap
    // mutation, fitness survivor, minimization.
    let m = small_matrix();
    let ga = base_ga();
    let res = ga.run(&m, seed4(), 7).unwrap();
    assert_eq!(res.generations_run, 1);
    assert_eq!(res.termination, TerminationCause::GenerationLimit);
    let pop = &res.population.individuals;
    assert_eq!(pop.len(), 4);
    for g in pop.iter() {
        // Each dna is a permutation of the original three alleles.
        assert_eq!(sorted_ids_of(g), vec![0, 1, 2]);
        // Fitness is the fitness of the dna.
        assert_eq!(g.fitness, m.fitness_of(&g.dna));
    }
    // Sorted ascending for minimization.
    for w in pop.windows(2) {
        assert!(w[0].fitness <= w[1].fitness);
    }
}

#[test]
fn survivor_population_size_and_order_hold_over_generations() {
    let m = small_matrix();
    let ga = base_ga().with_max_generations(25).with_number_of_couples(3);
    let res = ga.run(&m, seed4(), 99).unwrap();
    let pop = &res.population.individuals;
    assert_eq!(pop.len(), 4);
    for w in pop.windows(2) {
        assert!(w[0].fitness <= w[1].fitness);
    }
    for g in pop.iter() {
        assert_eq!(sorted_ids_of(g), vec![0, 1, 2]);
    }
    assert_eq!(res.generations_run, 25);
    assert_eq!(res.best_fitness_by_generation.len(), 26);
}

#[test]
fn maximization_sorts_descending() {
    let m = small_matrix();
    let ga = base_ga()
        .with_problem_solving(ProblemSolving::Maximization)
        .with_max_generations(5);
    let res = ga.run(&m, seed4(), 5).unwrap();
    let pop = &res.population.individuals;
    for w in pop.windows(2) {
        assert!(w[0].fitness >= w[1].fitness);
    }
}

#[test]
fn runs_are_deterministic_for_a_fixed_seed() {
    let m = small_matrix();
    let ga = base_ga().with_max_generations(30).with_number_of_couples(3);
    let r1 = ga.run(&m, seed4(), 1234).unwrap();
    let r2 = ga.run(&m, seed4(), 1234).unwrap();
    assert_eq!(r1.best_fitness_by_generation, r2.best_fitness_by_generation);
    assert_eq!(r1.generations_run, r2.generations_run);
    let f1: Vec<i64> = r1.population.individuals.iter().map(|g| g.fitness).collect();
    let f2: Vec<i64> = r2.population.individuals.iter().map(|g| g.fitness).collect();
    assert_eq!(f1, f2);
}

#[test]
fn worker_count_does_not_change_the_outcome() {
    let m = small_matrix();
    let one = base_ga().with_max_generations(20).with_threads(1);
    let many = base_ga().with_max_generations(20).with_threads(8);
    let r1 = one.run(&m, seed4(), 77).unwrap();
    let r8 = many.run(&m, seed4(), 77).unwrap();
    assert_eq!(r1.best_fitness_by_generation, r8.best_fitness_by_generation);
    let f1: Vec<i64> = r1.population.individuals.iter().map(|g| g.fitness).collect();
    let f8: Vec<i64> = r8.population.individuals.iter().map(|g| g.fitness).collect();
    assert_eq!(f1, f8);
}

#[test]
fn fitness_target_stops_the_run() {
    let m = small_matrix();
    // The best possible tour costs 15; every seed member already costs
    // at most 30, so a target of 30 is met by the evaluated seed.
    let ga = base_ga().with_max_generations(50).with_fitness_target(30);
    let res = ga.run(&m, seed4(), 3).unwrap();
    assert_eq!(res.termination, TerminationCause::FitnessTargetReached);
    assert_eq!(res.generations_run, 0);
    assert!(res.population.individuals[0].fitness <= 30);
}

#[test]
fn generation_limit_has_priority_over_target() {
    let m = small_matrix();
    // Both causes hold at once with a zero limit; the limit is reported.
    let ga = base_ga().with_max_generations(0).with_fitness_target(1_000);
    let res = ga.run(&m, seed4(), 3).unwrap();
    assert_eq!(res.termination, TerminationCause::GenerationLimit);
}

#[test]
fn ages_increase_for_survivors() {
    let m = small_matrix();
    let ga = base_ga().with_max_generations(6);
    let res = ga.run(&m, seed4(), 21).unwrap();
    for g in res.population.individuals.iter() {
        assert!(g.age >= 0 && g.age <= 6);
    }
}

struct RecordingObserver {
    calls: Vec<(i32, usize, TerminationCause)>,
}

impl genetic::ga::GenerationObserver for RecordingObserver {
    fn on_generation(
        &mut self,
        generation: i32,
        population: &genetic::population::Population,
        cause: TerminationCause,
    ) {
        self.calls.push((generation, population.individuals.len(), cause));
    }
}

#[test]
fn callback_sees_every_completed_generation() {
    let m = small_matrix();
    let ga = base_ga().with_max_generations(5);
    let mut obs = RecordingObserver { calls: Vec::new() };
    let res = ga.run_with_callback(&m, seed4(), 13, &mut obs).unwrap();
    assert_eq!(res.generations_run, 5);
    assert_eq!(obs.calls.len(), 5);
    for (k, call) in obs.calls.iter().enumerate() {
        assert_eq!(call.0, (k + 1) as i32);
        assert_eq!(call.1, 4);
        if k + 1 < 5 {
            assert_eq!(call.2, TerminationCause::NotTerminated);
        } else {
            assert_eq!(call.2, TerminationCause::GenerationLimit);
        }
    }
}

#[test]
fn callback_is_not_invoked_when_no_generation_runs() {
    let m = small_matrix();
    let ga = base_ga().with_max_generations(0);
    let mut obs = RecordingObserver { calls: Vec::new() };
    let res = ga.run_with_callback(&m, seed4(), 13, &mut obs).unwrap();
    assert_eq!(res.generations_run, 0);
    assert!(obs.calls.is_empty());
}

#[test]
fn single_point_run_with_repeated_alleles() {
    let m = small_matrix();
    let ga = base_ga()
        .with_crossover_method(Crossover::SinglePoint)
        .with_alleles_can_be_repeated(true)
        .with_max_generations(8);
    let seed = vec![
        genotype(&[0, 0, 2]),
        genotype(&[1, 1, 1]),
        genotype(&[2, 2, 0]),
        genotype(&[0, 1, 0]),
    ];
    let res = ga.run(&m, seed, 31).unwrap();
    let pop = &res.population.individuals;
    assert_eq!(pop.len(), 4);
    for w in pop.windows(2) {
        assert!(w[0].fitness <= w[1].fitness);
    }
    for g in pop.iter() {
        assert_eq!(g.dna.len(), 3);
        assert_eq!(g.fitness, m.fitness_of(&g.dna));
    }
}

#[test]
fn population_exposes_length_and_best() {
    let m = small_matrix();
    let res = base_ga().run(&m, seed4(), 2).unwrap();
    let pop = &res.population;
    assert_eq!(pop.len(), 4);
    let best = pop.best();
    assert_eq!(best.fitness, pop.individuals[0].fitness);
    for g in pop.individuals.iter() {
        assert!(best.fitness <= g.fitness);
    }
}
