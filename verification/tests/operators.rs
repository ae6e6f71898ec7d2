use genetic::candidate::{Gene, Genotype};
use genetic::config::{Configuration, Crossover, LogLevel, Mutation, ProblemSolving, Selection, Survivor, PROB_SCALE};
use genetic::crossover::{cycle_crossover, single_point_crossover};
use genetic::evaluator::{evaluate, evaluate_chunked};
use genetic::fitness::CostMatrix;
use genetic::mutation::swap_mutation;
use genetic::population::sort_by_rank;
use genetic::rng::Prng;
use genetic::scheduler::scheduled_probabilities;
use genetic::selection::select_couples;
use genetic::survivor::survivor_fitness;

fn gene(id: i32) -> Gene {
    Gene::new(id)
}

fn dna(ids: &[i32]) -> Vec<Gene> {
    ids.iter().map(|&i| gene(i)).collect()
}

fn ids(d: &[Gene]) -> Vec<i32> {
    d.iter().map(|g| g.id).collect()
}

fn sorted(mut v: Vec<i32>) -> Vec<i32> {
    v.sort();
    v
}

fn config(adaptive: bool) -> Configuration {
    Configuration {
        problem_solving: ProblemSolving::Minimization,
        log_level: LogLevel::Warn,
        max_generations: 10,
        fitness_target: None,
        best_individual_by_generation: false,
        population_size: 4,
        number_of_couples: 2,
        selection_method: Selection::Tournament,
        crossover_method: Crossover::Cycle,
        mutation_method: Mutation::Swap,
        survivor_method: Survivor::Fitness,
        adaptive_ga: adaptive,
        crossover_probability: 600_000,
        crossover_probability_min: 500_000,
        crossover_probability_max: 1_000_000,
        mutation_probability: 300_000,
        mutation_probability_min: 200_000,
        mutation_probability_max: 800_000,
        threads: 1,
        alleles: dna(&[0, 1, 2]),
        genes_per_individual: 3,
        alleles_can_be_repeated: false,
    }
}

#[test]
fn cycle_crossover_preserves_the_allele_multiset() {
    let p1 = dna(&[0, 1, 2, 3, 4, 5, 6]);
    let p2 = dna(&[3, 0, 6, 1, 5, 4, 2]);
    let (c1, c2) = cycle_crossover(&p1, &p2);
    assert_eq!(c1.len(), 7);
    assert_eq!(c2.len(), 7);
    assert_eq!(sorted(ids(&c1)), vec![0, 1, 2, 3, 4, 5, 6]);
    assert_eq!(sorted(ids(&c2)), vec![0, 1, 2, 3, 4, 5, 6]);
    // Every position comes from one of the two parents.
    for i in 0..7 {
        assert!(c1[i] == p1[i] || c1[i] == p2[i]);
        assert!(c2[i] == p1[i] || c2[i] == p2[i]);
    }
}

#[test]
fn cycle_crossover_alternates_whole_cycles() {
    // Positions 0 and 1 form one cycle, positions 2 and 3 another.
    let p1 = dna(&[0, 1, 2, 3]);
    let p2 = dna(&[1, 0, 3, 2]);
    let (c1, c2) = cycle_crossover(&p1, &p2);
    // First cycle from the first parent, second cycle from the second.
    assert_eq!(ids(&c1), vec![0, 1, 3, 2]);
    assert_eq!(ids(&c2), vec![1, 0, 2, 3]);
}

#[test]
fn cycle_crossover_identical_parents_copy() {
    let p = dna(&[2, 0, 1]);
    let (c1, c2) = cycle_crossover(&p, &p);
    assert_eq!(ids(&c1), vec![2, 0, 1]);
    assert_eq!(ids(&c2), vec![2, 0, 1]);
}

#[test]
fn single_point_crossover_splices() {
    let p1 = dna(&[0, 1, 2, 3]);
    let p2 = dna(&[4, 5, 6, 7]);
    let (c1, c2) = single_point_crossover(&p1, &p2, 2);
    assert_eq!(ids(&c1), vec![0, 1, 6, 7]);
    assert_eq!(ids(&c2), vec![4, 5, 2, 3]);
    let (c1, c2) = single_point_crossover(&p1, &p2, 0);
    assert_eq!(ids(&c1), vec![4, 5, 6, 7]);
    assert_eq!(ids(&c2), vec![0, 1, 2, 3]);
    let (c1, _) = single_point_crossover(&p1, &p2, 4);
    assert_eq!(ids(&c1), vec![0, 1, 2, 3]);
}

#[test]
fn swap_mutation_preserves_the_allele_multiset() {
    let mut rng = Prng::new(5);
    for _ in 0..20 {
        let mut g = Genotype::new(dna(&[0, 1, 2, 3, 4]));
        swap_mutation(&mut g, &mut rng);
        assert_eq!(g.dna.len(), 5);
        assert_eq!(sorted(ids(&g.dna)), vec![0, 1, 2, 3, 4]);
        assert_eq!(g.age, 0);
    }
}

#[test]
fn swap_mutation_swaps_two_distinct_positions() {
    let mut rng = Prng::new(11);
    let before = dna(&[0, 1, 2, 3]);
    let mut g = Genotype::new(before.clone());
    swap_mutation(&mut g, &mut rng);
    let changed: Vec<usize> = (0..4).filter(|&i| g.dna[i] != before[i]).collect();
    assert_eq!(changed.len(), 2);
    let (a, b) = (changed[0], changed[1]);
    assert_eq!(g.dna[a], before[b]);
    assert_eq!(g.dna[b], before[a]);
}

#[test]
fn prng_is_deterministic_and_bounded() {
    let mut r1 = Prng::new(42);
    let mut r2 = Prng::new(42);
    for _ in 0..100 {
        let a = r1.below(17);
        let b = r2.below(17);
        assert_eq!(a, b);
        assert!(a < 17);
    }
    let mut r3 = Prng::new(43);
    let differs = (0..10).any(|_| r3.next_u64() != r1.next_u64());
    assert!(differs);
}

#[test]
fn scheduler_fixed_mode_returns_the_constants() {
    let c = config(false);
    for g in [0, 3, 10] {
        let (pc, pm) = scheduled_probabilities(&c, g);
        assert_eq!(pc, 600_000);
        assert_eq!(pm, 300_000);
    }
}

#[test]
fn scheduler_adaptive_bounds_and_endpoints() {
    let c = config(true);
    // Generation 0: the lower bounds.
    let (pc, pm) = scheduled_probabilities(&c, 0);
    assert_eq!(pc, 500_000);
    assert_eq!(pm, 200_000);
    // The final generation: the upper bounds.
    let (pc, pm) = scheduled_probabilities(&c, 10);
    assert_eq!(pc, 1_000_000);
    assert_eq!(pm, 800_000);
    // Every generation in between: inside the bounds, and monotone here.
    let mut last = (500_000, 200_000);
    for g in 1..=10 {
        let (pc, pm) = scheduled_probabilities(&c, g);
        assert!((500_000..=1_000_000).contains(&pc));
        assert!((200_000..=800_000).contains(&pm));
        assert!(pc >= last.0 && pm >= last.1);
        last = (pc, pm);
    }
    // The exact midpoint value of the linear mapping.
    let (pc, pm) = scheduled_probabilities(&c, 5);
    assert_eq!(pc, 750_000);
    assert_eq!(pm, 500_000);
}

#[test]
fn scheduler_clamps_oversized_probabilities() {
    let mut c = config(false);
    c.crossover_probability = 2 * PROB_SCALE;
    let (pc, _) = scheduled_probabilities(&c, 1);
    assert_eq!(pc, PROB_SCALE);
}

#[test]
fn selection_indices_are_in_bounds() {
    let c = config(false);
    let pop: Vec<Genotype> = vec![
        Genotype { dna: dna(&[0, 1, 2]), fitness: 3, age: 0 },
        Genotype { dna: dna(&[1, 0, 2]), fitness: 1, age: 0 },
        Genotype { dna: dna(&[2, 1, 0]), fitness: 2, age: 0 },
    ];
    let mut rng = Prng::new(9);
    for method in [Selection::Random, Selection::Tournament] {
        let couples = select_couples(method, c.problem_solving, &pop, 10, &mut rng);
        assert_eq!(couples.len(), 10);
        for (a, b) in couples {
            assert!(a < 3 && b < 3);
        }
    }
}

#[test]
fn sort_by_rank_orders_and_breaks_ties_by_age() {
    let mk = |fit: i64, age: i32| Genotype { dna: dna(&[0]), fitness: fit, age };
    let v = vec![mk(5, 0), mk(1, 3), mk(5, 1), mk(1, 1), mk(2, 0)];
    let out = sort_by_rank(ProblemSolving::Minimization, v);
    let key: Vec<(i64, i32)> = out.iter().map(|g| (g.fitness, g.age)).collect();
    assert_eq!(key, vec![(1, 1), (1, 3), (2, 0), (5, 0), (5, 1)]);
    let v = vec![mk(5, 2), mk(1, 3), mk(5, 1)];
    let out = sort_by_rank(ProblemSolving::Maximization, v);
    let key: Vec<(i64, i32)> = out.iter().map(|g| (g.fitness, g.age)).collect();
    assert_eq!(key, vec![(5, 1), (5, 2), (1, 3)]);
}

#[test]
fn survivor_keeps_the_best_at_the_configured_size() {
    let mk = |fit: i64, age: i32| Genotype { dna: dna(&[0]), fitness: fit, age };
    let current = vec![mk(10, 2), mk(4, 1)];
    let offspring = vec![mk(7, 0), mk(2, 0), mk(12, 0)];
    let out = survivor_fitness(ProblemSolving::Minimization, current, offspring, 2);
    assert_eq!(out.len(), 2);
    assert_eq!(out[0].fitness, 2);
    assert_eq!(out[1].fitness, 4);
}

#[test]
fn evaluator_refreshes_fitness_in_place() {
    let m = CostMatrix::new(vec![vec![0, 10], vec![10, 0]]);
    let mut batch = vec![
        Genotype { dna: dna(&[0, 1]), fitness: -1, age: 4 },
        Genotype { dna: dna(&[1, 0]), fitness: 99, age: 2 },
    ];
    evaluate(&m, &mut batch);
    assert_eq!(batch[0].fitness, 10);
    assert_eq!(batch[1].fitness, 10);
    assert_eq!(batch[0].age, 4);
    assert_eq!(batch[1].age, 2);
}

#[test]
fn chunked_evaluation_matches_sequential() {
    let m = CostMatrix::new(vec![vec![0, 10, 3], vec![10, 0, 4], vec![3, 4, 0]]);
    let batch: Vec<Genotype> = (0..7)
        .map(|k| Genotype { dna: dna(&[k % 3, (k + 1) % 3, (k + 2) % 3]), fitness: 0, age: 0 })
        .collect();
    let mut seq_batch = batch.clone();
    evaluate(&m, &mut seq_batch);
    for t in [0usize, 1, 2, 3, 5, 16] {
        let mut chunked = batch.clone();
        evaluate_chunked(&m, &mut chunked, t);
        let a: Vec<i64> = seq_batch.iter().map(|g| g.fitness).collect();
        let b: Vec<i64> = chunked.iter().map(|g| g.fitness).collect();
        assert_eq!(a, b);
    }
}
