//! The evaluator: refreshes the fitness of a batch of genotypes.
//!
//! Fitness is a pure function of a genotype's dna, so the index-to-fitness
//! mapping of a batch is deterministic and independent of how the batch is
//! partitioned. The chunked entry point splits the batch into up to `t`
//! contiguous chunks, as a fixed-size worker pool would, and its contract
//! is identical to the sequential one: the merged result never depends on
//! the worker count.

use vstd::prelude::*;
use crate::candidate::{FitnessFunction, Genotype};

verus! {

/// `after` is `before` with every fitness refreshed by `f` and nothing
/// else changed: each individual keeps its dna and age exactly, and its
/// fitness becomes the mathematical fitness of its dna.
pub open spec fn is_evaluation_of<E: FitnessFunction>(
    f: &E,
    before: Seq<Genotype>,
    after: Seq<Genotype>,
) -> bool {
    &&& after.len() == before.len()
    &&& forall|i: int| 0 <= i < before.len() ==> (#[trigger] after[i]) == (Genotype {
        fitness: f.fitness_spec(before[i].dna@),
        ..before[i]
    })
}

/// The evaluation of a batch, as a mathematical map: every individual
/// with its fitness replaced by the fitness of its dna.
pub open spec fn spec_evaluated<E: FitnessFunction>(f: &E, s: Seq<Genotype>) -> Seq<Genotype> {
    s.map(|i: int, g: Genotype| (Genotype { fitness: f.fitness_spec(g.dna@), ..g }))
}

/// An evaluation result is exactly the mathematical evaluation map of its
/// input: there is only one possible outcome.
pub proof fn lemma_evaluation_is_map<E: FitnessFunction>(
    f: &E,
    before: Seq<Genotype>,
    after: Seq<Genotype>,
)
    requires
        is_evaluation_of(f, before, after),
    ensures
        after == spec_evaluated(f, before),
{
    assert(after =~= spec_evaluated(f, before));
}

/// Re-evaluating an already evaluated batch changes nothing: fitness
/// computation is idempotent.
pub proof fn lemma_evaluation_idempotent<E: FitnessFunction>(
    f: &E,
    before: Seq<Genotype>,
    after: Seq<Genotype>,
)
    requires
        is_evaluation_of(f, before, after),
    ensures
        is_evaluation_of(f, after, after),
{
}

/// Evaluation is deterministic: any two evaluations of the same batch
/// agree individual by individual, in dna, fitness and age. In particular
/// the result does not depend on the order or partition of the work.
pub proof fn lemma_evaluation_deterministic<E: FitnessFunction>(
    f: &E,
    before: Seq<Genotype>,
    a1: Seq<Genotype>,
    a2: Seq<Genotype>,
)
    requires
        is_evaluation_of(f, before, a1),
        is_evaluation_of(f, before, a2),
    ensures
        a1 == a2,
{
    assert(a1 =~= a2);
}

/// Refresh the fitness of `v[from..to]` in place.
fn evaluate_range<E: FitnessFunction>(f: &E, v: &mut Vec<Genotype>, from: usize, to: usize)
    requires
        from <= to <= old(v)@.len(),
    ensures
        final(v)@.len() == old(v)@.len(),
        forall|i: int| from <= i < to ==> (#[trigger] final(v)@[i]) == (Genotype {
            fitness: f.fitness_spec(old(v)@[i].dna@),
            ..old(v)@[i]
        }),
        forall|i: int| 0 <= i < old(v)@.len() && !(from <= i < to) ==> final(v)@[i] == old(v)@[i],
{
    let mut i: usize = from;
    while i < to
        invariant
            from <= i <= to <= v@.len(),
            v@.len() == old(v)@.len(),
            forall|j: int| from <= j < i ==> (#[trigger] v@[j]) == (Genotype {
                fitness: f.fitness_spec(old(v)@[j].dna@),
                ..old(v)@[j]
            }),
            forall|j: int| 0 <= j < old(v)@.len() && !(from <= j < i) ==> v@[j] == old(v)@[j],
        decreases to - i,
    {
        let fit = f.fitness_of(&v[i].dna);
        let g = &mut v[i];
        g.fitness = fit;
        i = i + 1;
    }
}

/// Evaluate a batch sequentially.
pub fn evaluate<E: FitnessFunction>(f: &E, v: &mut Vec<Genotype>)
    ensures
        is_evaluation_of(f, old(v)@, final(v)@),
{
    let len = v.len();
    evaluate_range(f, v, 0, len);
}

/// Evaluate a batch in up to `threads` contiguous chunks, merging results
/// back by position. The contract equals the sequential one: given the
/// same batch, the outcome is independent of the worker count.
pub fn evaluate_chunked<E: FitnessFunction>(f: &E, v: &mut Vec<Genotype>, threads: usize)
    ensures
        is_evaluation_of(f, old(v)@, final(v)@),
{
    let len = v.len();
    let t = if threads == 0 {
        1
    } else {
        threads
    };
    let base = len / t;
    let rem = len % t;
    let mut start: usize = 0;
    let mut c: usize = 0;
    while c < t && start < len
        invariant
            start <= len,
            len == v@.len(),
            v@.len() == old(v)@.len(),
            forall|j: int| 0 <= j < start ==> (#[trigger] v@[j]) == (Genotype {
                fitness: f.fitness_spec(old(v)@[j].dna@),
                ..old(v)@[j]
            }),
            forall|j: int| start <= j < len ==> v@[j] == old(v)@[j],
        decreases len - start,
    {
        let remaining = len - start;
        let mut size = base;
        if c < rem && size < remaining {
            size = size + 1;
        }
        if size == 0 {
            size = 1;
        }
        if size > remaining {
            size = remaining;
        }
        let end = start + size;
        evaluate_range(f, v, start, end);
        start = end;
        c = c + 1;
    }
    // Any positions a short chunk schedule would leave over are evaluated
    // sequentially, so the whole batch is always refreshed.
    evaluate_range(f, v, start, len);
}

} // verus!
