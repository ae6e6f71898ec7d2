//! The population: an ordered, fitness-ranked collection of genotypes, and
//! the verified sort that establishes its order invariant.

use vstd::prelude::*;
use vstd::multiset::Multiset;
use crate::candidate::Genotype;
use crate::config::ProblemSolving;

verus! {

/// `a`'s fitness is at least as good as `b`'s for the direction `d`.
pub open spec fn fitness_better_eq(d: ProblemSolving, a: i64, b: i64) -> bool {
    match d {
        ProblemSolving::Minimization => a <= b,
        ProblemSolving::Maximization => a >= b,
    }
}

/// Decide whether `a` is at least as good a fitness as `b` for the
/// direction `d`.
pub fn fitness_better_eq_exec(d: ProblemSolving, a: i64, b: i64) -> (r: bool)
    ensures
        r == fitness_better_eq(d, a, b),
{
    match d {
        ProblemSolving::Minimization => a <= b,
        ProblemSolving::Maximization => a >= b,
    }
}

/// The ranking order of individuals: by fitness for the direction `d`,
/// ties broken by lower age (younger individuals rank first).
pub open spec fn rank_le(d: ProblemSolving, a: Genotype, b: Genotype) -> bool {
    match d {
        ProblemSolving::Minimization => a.fitness < b.fitness || (a.fitness == b.fitness
            && a.age <= b.age),
        ProblemSolving::Maximization => a.fitness > b.fitness || (a.fitness == b.fitness
            && a.age <= b.age),
    }
}

/// The population order invariant: individuals stand in ranking order, so
/// fitness is ascending for minimization and descending for maximization,
/// and index 0 is always the best individual.
pub open spec fn sorted_by_rank(d: ProblemSolving, s: Seq<Genotype>) -> bool {
    forall|i: int, j: int| 0 <= i < j < s.len() ==> rank_le(d, s[i], s[j])
}

/// The ranking order is total and transitive.
pub proof fn lemma_rank_le_total(d: ProblemSolving, a: Genotype, b: Genotype, c: Genotype)
    ensures
        rank_le(d, a, b) || rank_le(d, b, a),
        rank_le(d, a, b) && rank_le(d, b, c) ==> rank_le(d, a, c),
{
}

/// Decide the ranking order of two individuals.
pub fn rank_le_exec(d: ProblemSolving, a: &Genotype, b: &Genotype) -> (r: bool)
    ensures
        r == rank_le(d, *a, *b),
{
    match d {
        ProblemSolving::Minimization => a.fitness < b.fitness || (a.fitness == b.fitness
            && a.age <= b.age),
        ProblemSolving::Maximization => a.fitness > b.fitness || (a.fitness == b.fitness
            && a.age <= b.age),
    }
}

/// The position of the first best-ranked individual, given that `m` is
/// that position among the first `k` ones.
pub open spec fn spec_min_index_from(d: ProblemSolving, s: Seq<Genotype>, m: int, k: int) -> int
    decreases s.len() - k,
{
    if k < 0 || k >= s.len() {
        m
    } else if !rank_le(d, s[m], s[k]) {
        spec_min_index_from(d, s, k, k + 1)
    } else {
        spec_min_index_from(d, s, m, k + 1)
    }
}

/// The position of the first best-ranked individual of `s`.
pub open spec fn spec_min_index(d: ProblemSolving, s: Seq<Genotype>) -> int {
    spec_min_index_from(d, s, 0, 1)
}

pub proof fn lemma_min_index_from_bounds(d: ProblemSolving, s: Seq<Genotype>, m: int, k: int)
    requires
        0 <= m < s.len(),
    ensures
        0 <= spec_min_index_from(d, s, m, k) < s.len(),
    decreases s.len() - k,
{
    if 0 <= k < s.len() {
        if !rank_le(d, s[m], s[k]) {
            lemma_min_index_from_bounds(d, s, k, k + 1);
        } else {
            lemma_min_index_from_bounds(d, s, m, k + 1);
        }
    }
}

/// The ranking sort, as a mathematical function: repeatedly extract the
/// first best-ranked remaining individual. Extracting the *first* such
/// position keeps equally ranked individuals in their input order.
pub open spec fn spec_sort_by_rank(d: ProblemSolving, s: Seq<Genotype>) -> Seq<Genotype>
    decreases s.len(),
{
    if s.len() == 0 {
        Seq::empty()
    } else {
        let m = spec_min_index(d, s);
        if 0 <= m < s.len() {
            seq![s[m]] + spec_sort_by_rank(d, s.remove(m))
        } else {
            s
        }
    }
}

/// Sort individuals into ranking order for the direction `d`. The result
/// is exactly `spec_sort_by_rank` of the input: the same individuals (as
/// a multiset) in ranking order, equally ranked individuals keeping
/// their input order, deterministically.
pub fn sort_by_rank(d: ProblemSolving, v: Vec<Genotype>) -> (out: Vec<Genotype>)
    ensures
        out@ == spec_sort_by_rank(d, v@),
        sorted_by_rank(d, out@),
        out@.to_multiset() == v@.to_multiset(),
        out@.len() == v@.len(),
{
    broadcast use vstd::seq_lib::group_to_multiset_ensures;

    let mut rest = v;
    let mut out: Vec<Genotype> = Vec::new();
    let ghost orig: Seq<Genotype> = rest@;
    proof {
        assert(out@.to_multiset().add(rest@.to_multiset()) =~= orig.to_multiset());
        assert(out@ + spec_sort_by_rank(d, rest@) =~= spec_sort_by_rank(d, orig));
    }
    while rest.len() > 0
        invariant
            out@.to_multiset().add(rest@.to_multiset()) == orig.to_multiset(),
            out@.len() + rest@.len() == orig.len(),
            sorted_by_rank(d, out@),
            forall|i: int, j: int| 0 <= i < out@.len() && 0 <= j < rest@.len()
                ==> rank_le(d, out@[i], rest@[j]),
            out@ + spec_sort_by_rank(d, rest@) == spec_sort_by_rank(d, orig),
        decreases rest@.len(),
    {
        // Find the first index of a minimally ranked remaining individual.
        let mut m: usize = 0;
        let mut k: usize = 1;
        while k < rest.len()
            invariant
                m < rest@.len(),
                k <= rest@.len(),
                rest@.len() > 0,
                forall|t: int| 0 <= t < k ==> rank_le(d, rest@[m as int], rest@[t]),
                spec_min_index_from(d, rest@, m as int, k as int) == spec_min_index(d, rest@),
            decreases rest@.len() - k,
        {
            if !rank_le_exec(d, &rest[m], &rest[k]) {
                proof {
                    lemma_rank_le_total(d, rest@[m as int], rest@[k as int], rest@[k as int]);
                    assert forall|t: int| 0 <= t < k + 1 implies rank_le(d, rest@[k as int], rest@[t]) by {
                        lemma_rank_le_total(d, rest@[k as int], rest@[m as int], rest@[t]);
                    }
                }
                m = k;
            }
            k = k + 1;
        }
        proof {
            assert(spec_min_index(d, rest@) == m as int);
        }
        let ghost rest_before: Seq<Genotype> = rest@;
        let g = rest.remove(m);
        proof {
            assert(spec_sort_by_rank(d, rest_before) == seq![g] + spec_sort_by_rank(d, rest@));
            assert(out@.push(g) + spec_sort_by_rank(d, rest@) =~= out@ + spec_sort_by_rank(
                d,
                rest_before,
            ));
            broadcast use vstd::seq_lib::group_to_multiset_ensures;

            assert(rest@.to_multiset() == rest_before.to_multiset().remove(g));
            assert(out@.push(g).to_multiset() =~= out@.to_multiset().insert(g));
            assert forall|x: Genotype|
                (#[trigger] out@.push(g).to_multiset().add(rest@.to_multiset()).count(x))
                    == orig.to_multiset().count(x) by {
                assert(rest_before.to_multiset().count(g) > 0);
            }
            assert(out@.push(g).to_multiset().add(rest@.to_multiset()) =~= orig.to_multiset());
            assert forall|j: int| 0 <= j < rest@.len() implies rank_le(d, g, rest@[j]) by {
                if j < m {
                    assert(rest@[j] == rest_before[j]);
                } else {
                    assert(rest@[j] == rest_before[j + 1]);
                }
            }
        }
        out.push(g);
    }
    proof {
        broadcast use vstd::seq_lib::group_to_multiset_ensures;

        assert(rest@.to_multiset() =~= Multiset::<Genotype>::empty());
        assert(out@.to_multiset() =~= orig.to_multiset());
        assert(out@.to_multiset().len() == out@.len());
        assert(orig.to_multiset().len() == orig.len());
        assert(out@ + spec_sort_by_rank(d, rest@) =~= out@);
    }
    out
}

/// An ordered collection of genotypes: the unit of state the engine
/// advances one generation at a time.
#[derive(Clone, Debug)]
pub struct Population {
    pub individuals: Vec<Genotype>,
}

impl Population {
    pub fn new(individuals: Vec<Genotype>) -> (r: Population)
        ensures
            r.individuals@ == individuals@,
    {
        Population { individuals }
    }

    pub fn len(&self) -> (r: usize)
        ensures
            r == self.individuals@.len(),
    {
        self.individuals.len()
    }

    /// The best individual: index 0 of a population in ranking order.
    pub fn best(&self) -> (r: &Genotype)
        requires
            self.individuals@.len() > 0,
        ensures
            r == self.individuals@[0],
    {
        &self.individuals[0]
    }
}

} // verus!
