//! The survivor operator: composes the next generation from the current
//! individuals and the new offspring, enforcing the constant population
//! size and the population order invariant.

use vstd::prelude::*;
use vstd::multiset::Multiset;
use crate::candidate::Genotype;
use crate::config::ProblemSolving;
use crate::population::{rank_le, sort_by_rank, sorted_by_rank, spec_sort_by_rank};

verus! {

/// Fitness-based survival: pool the current individuals with the
/// offspring, sort the pool into ranking order (ties broken by lower
/// age) and keep the best `size`. Every kept individual ranks no worse
/// than every individual left out, and the merge is a pure function of
/// its inputs, so equal fitness is resolved deterministically.
pub fn survivor_fitness(
    d: ProblemSolving,
    current: Vec<Genotype>,
    offspring: Vec<Genotype>,
    size: usize,
) -> (out: Vec<Genotype>)
    requires
        size <= current@.len() + offspring@.len(),
    ensures
        out@ == spec_sort_by_rank(d, current@ + offspring@).take(size as int),
        out@.len() == size,
        sorted_by_rank(d, out@),
        forall|x: Genotype| #[trigger] out@.to_multiset().count(x)
            <= (current@ + offspring@).to_multiset().count(x),
        forall|x: Genotype| (current@ + offspring@).to_multiset().count(x)
            > out@.to_multiset().count(x) ==> forall|k: int| 0 <= k < out@.len()
            ==> rank_le(d, #[trigger] out@[k], x),
{
    broadcast use vstd::seq_lib::group_to_multiset_ensures;
    broadcast use vstd::multiset::group_multiset_axioms;

    let ghost pool_seq: Seq<Genotype> = current@ + offspring@;
    let mut pool = current;
    let mut rest = offspring;
    pool.append(&mut rest);
    let mut sorted = sort_by_rank(d, pool);
    proof {
        vstd::seq_lib::lemma_multiset_commutative(sorted@.take(size as int), sorted@.skip(size as int));
        assert(sorted@.take(size as int) + sorted@.skip(size as int) =~= sorted@);
    }
    let ghost sorted_seq: Seq<Genotype> = sorted@;
    sorted.truncate(size);
    proof {
        assert(sorted@ == sorted_seq.take(size as int));
        assert forall|x: Genotype| pool_seq.to_multiset().count(x) > sorted@.to_multiset().count(x)
            implies forall|k: int| 0 <= k < sorted@.len() ==> rank_le(d, #[trigger] sorted@[k], x) by {
            let dropped = sorted_seq.skip(size as int);
            assert(sorted_seq.to_multiset().count(x) == sorted@.to_multiset().count(x)
                + dropped.to_multiset().count(x));
            assert(dropped.to_multiset().count(x) > 0);
            assert(dropped.contains(x));
            let j = choose|j: int| 0 <= j < dropped.len() && dropped[j] == x;
            assert(sorted_seq[size as int + j] == x);
            assert forall|k: int| 0 <= k < sorted@.len() implies rank_le(d, #[trigger] sorted@[k], x) by {
                assert(sorted_seq[k] == sorted@[k]);
                assert(rank_le(d, sorted_seq[k], sorted_seq[size as int + j]));
            }
        }
    }
    sorted
}

} // verus!
