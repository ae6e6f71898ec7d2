//! Mutation operators. Swap mutation exchanges the genes at two distinct
//! positions, so it preserves dna length and the allele multiset: it is
//! safe for permutation encodings.

use vstd::prelude::*;
use vstd::pervasive::VecAdditionalExecFns;
use crate::candidate::{Gene, Genotype};
use crate::rng::{Prng, spec_advance, spec_pair_first, spec_pair_second};

verus! {

/// The dna with the genes at `a` and `b` exchanged.
pub open spec fn spec_swapped(dna: Seq<Gene>, a: int, b: int) -> Seq<Gene> {
    dna.update(a, dna[b]).update(b, dna[a])
}

/// Exchanging two genes never changes the allele multiset.
pub proof fn lemma_swap_preserves_multiset(dna: Seq<Gene>, a: int, b: int)
    requires
        0 <= a < dna.len(),
        0 <= b < dna.len(),
    ensures
        spec_swapped(dna, a, b).to_multiset() == dna.to_multiset(),
        spec_swapped(dna, a, b).len() == dna.len(),
{
    broadcast use vstd::seq_lib::group_to_multiset_ensures;

    let s1 = dna.update(a, dna[b]);
    let s2 = s1.update(b, dna[a]);
    assert(dna.to_multiset().count(dna[a]) > 0);
    assert(s1.to_multiset().count(s1[b]) > 0);
    assert forall|x: Gene| s2.to_multiset().count(x) == dna.to_multiset().count(x) by {
        assert(s1.to_multiset() == dna.to_multiset().insert(dna[b]).remove(dna[a]));
        assert(s2.to_multiset() == s1.to_multiset().insert(dna[a]).remove(s1[b]));
    }
    assert(s2.to_multiset() =~= dna.to_multiset());
}

/// Swap mutation: exchange the genes at two distinct positions drawn from
/// the generator. The result and the generator's next state are functions
/// of the dna and the state before the call.
pub fn swap_mutation(g: &mut Genotype, rng: &mut Prng)
    requires
        old(g).dna@.len() >= 2,
        old(g).dna@.len() <= u64::MAX,
    ensures
        final(g).dna@ == spec_swapped(
            old(g).dna@,
            spec_pair_first(old(rng).state, old(g).dna@.len() as u64) as int,
            spec_pair_second(old(rng).state, old(g).dna@.len() as u64) as int,
        ),
        final(g).dna@.to_multiset() == old(g).dna@.to_multiset(),
        final(g).dna@.len() == old(g).dna@.len(),
        final(g).fitness == old(g).fitness,
        final(g).age == old(g).age,
        final(rng).state == spec_advance(spec_advance(old(rng).state)),
{
    let ghost dna0 = g.dna@;
    let len = g.dna.len();
    let pair = rng.distinct_pair(len);
    let a = pair.0;
    let b = pair.1;
    let ga: Gene = g.dna[a];
    let gb: Gene = g.dna[b];
    g.dna.set(a, gb);
    g.dna.set(b, ga);
    proof {
        assert(g.dna@ == spec_swapped(dna0, a as int, b as int));
        lemma_swap_preserves_multiset(dna0, a as int, b as int);
    }
}

} // verus!
