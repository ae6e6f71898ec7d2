//! The candidate model: genes, genotypes, and the fitness-function contract.

use vstd::prelude::*;

verus! {

/// The smallest unit of a candidate encoding: an allele carrying a stable
/// identity. Genes are immutable value types; the engine only reorders or
/// replaces genes within a genotype's dna, it never mutates one in place.
#[derive(Clone, Copy, PartialEq, Eq, Structural, Debug)]
pub struct Gene {
    pub id: i32,
}

impl Gene {
    pub fn new(id: i32) -> (g: Gene)
        ensures
            g.id == id,
    {
        Gene { id }
    }

    pub fn get_id(&self) -> (r: i32)
        ensures
            r == self.id,
    {
        self.id
    }

    pub fn set_id(&mut self, id: i32)
        ensures
            final(self).id == id,
    {
        self.id = id;
    }
}

impl Default for Gene {
    fn default() -> (g: Gene)
        ensures
            g.id == 0,
    {
        Gene { id: 0 }
    }
}

/// One candidate solution: an ordered dna of genes, the scalar fitness of
/// that dna, and the number of generations the individual has survived.
#[derive(Clone, Debug)]
pub struct Genotype {
    pub dna: Vec<Gene>,
    pub fitness: i64,
    pub age: i32,
}

impl Genotype {
    /// A fresh individual: age starts at zero, fitness is not yet computed.
    pub fn new(dna: Vec<Gene>) -> (g: Genotype)
        ensures
            g.dna@ == dna@,
            g.fitness == 0,
            g.age == 0,
    {
        Genotype { dna, fitness: 0, age: 0 }
    }

    pub fn get_dna(&self) -> (r: &Vec<Gene>)
        ensures
            r@ == self.dna@,
    {
        &self.dna
    }

    pub fn set_dna(&mut self, dna: Vec<Gene>)
        ensures
            final(self).dna@ == dna@,
            final(self).fitness == old(self).fitness,
            final(self).age == old(self).age,
    {
        self.dna = dna;
    }

    pub fn get_fitness(&self) -> (r: i64)
        ensures
            r == self.fitness,
    {
        self.fitness
    }

    pub fn set_fitness(&mut self, fitness: i64)
        ensures
            final(self).fitness == fitness,
            final(self).dna@ == old(self).dna@,
            final(self).age == old(self).age,
    {
        self.fitness = fitness;
    }

    pub fn get_age(&self) -> (r: i32)
        ensures
            r == self.age,
    {
        self.age
    }

    pub fn set_age(&mut self, age: i32)
        ensures
            final(self).age == age,
            final(self).dna@ == old(self).dna@,
            final(self).fitness == old(self).fitness,
    {
        self.age = age;
    }

    /// An exact copy of this individual.
    pub fn duplicate(&self) -> (r: Genotype)
        ensures
            r.dna@ == self.dna@,
            r.fitness == self.fitness,
            r.age == self.age,
    {
        let dna = copy_dna(&self.dna);
        Genotype { dna, fitness: self.fitness, age: self.age }
    }

    /// Recompute this individual's fitness from its current dna, with the
    /// given fitness function. Fitness is a pure function of the dna, so
    /// re-evaluating an unchanged genotype always yields the same value.
    pub fn calculate_fitness<E: FitnessFunction>(&mut self, f: &E)
        ensures
            final(self).fitness == f.fitness_spec(old(self).dna@),
            final(self).dna@ == old(self).dna@,
            final(self).age == old(self).age,
    {
        let fit = f.fitness_of(&self.dna);
        self.fitness = fit;
    }
}

/// Copy a dna sequence gene by gene.
pub fn copy_dna(dna: &Vec<Gene>) -> (r: Vec<Gene>)
    ensures
        r@ == dna@,
{
    let mut out: Vec<Gene> = Vec::new();
    let mut i: usize = 0;
    while i < dna.len()
        invariant
            i <= dna@.len(),
            out@ == dna@.subrange(0, i as int),
        decreases dna@.len() - i,
    {
        out.push(dna[i]);
        i = i + 1;
        proof {
            assert(out@ =~= dna@.subrange(0, i as int));
        }
    }
    proof {
        assert(out@ =~= dna@);
    }
    out
}

/// The capability contract a problem domain supplies: a fitness measure that
/// is a pure function of a dna sequence. The spec-level `fitness_spec` pins
/// the executable `fitness_of` down, so evaluation is deterministic and
/// idempotent for every implementation.
pub trait FitnessFunction {
    /// The mathematical fitness of a dna sequence.
    spec fn fitness_spec(&self, dna: Seq<Gene>) -> i64;

    /// Compute the fitness of `dna`; the result is exactly `fitness_spec`.
    fn fitness_of(&self, dna: &Vec<Gene>) -> (r: i64)
        ensures
            r == self.fitness_spec(dna@),
    ;
}

} // verus!
