//! A ready-made fitness function: the length of the tour a permutation
//! dna describes over a matrix of pairwise travel costs. The matrix is
//! the integer form of a problem instance (for example, scaled distances
//! between cities); the fitness of a dna is the sum of the costs of its
//! consecutive gene pairs, clamped into the fitness range.

use vstd::prelude::*;
use crate::candidate::{FitnessFunction, Gene};

verus! {

/// Each single edge cost is clamped into `[0, MAX_EDGE_COST]`, so tour
/// sums stay within provable bounds.
pub const MAX_EDGE_COST: i64 = 1_000_000_000;

/// A matrix of pairwise travel costs, indexed by allele identity.
pub struct CostMatrix {
    pub cost: Vec<Vec<i64>>,
}

/// The clamped cost of the edge from allele `x` to allele `y`: matrix
/// entries outside the matrix, or outside the cost range, count as 0 or
/// as the range bound.
pub open spec fn spec_edge(m: &CostMatrix, x: int, y: int) -> int {
    if 0 <= x < m.cost@.len() && 0 <= y < m.cost@[x]@.len() {
        let c = m.cost@[x]@[y];
        if c < 0 {
            0
        } else if c > MAX_EDGE_COST {
            MAX_EDGE_COST as int
        } else {
            c as int
        }
    } else {
        0
    }
}

/// The tour length of a dna: the sum of the edge costs between each pair
/// of consecutive genes.
pub open spec fn spec_tour_cost(m: &CostMatrix, dna: Seq<Gene>) -> int
    decreases dna.len(),
{
    if dna.len() < 2 {
        0
    } else {
        spec_tour_cost(m, dna.drop_last()) + spec_edge(
            m,
            dna[dna.len() - 2].id as int,
            dna[dna.len() - 1].id as int,
        )
    }
}

impl CostMatrix {
    pub fn new(cost: Vec<Vec<i64>>) -> (m: CostMatrix)
        ensures
            m.cost@ == cost@,
    {
        CostMatrix { cost }
    }

    /// The clamped cost of one edge.
    fn edge(&self, x: i32, y: i32) -> (r: i64)
        ensures
            r as int == spec_edge(self, x as int, y as int),
    {
        if x >= 0 && (x as usize) < self.cost.len() {
            let row = &self.cost[x as usize];
            if y >= 0 && (y as usize) < row.len() {
                let c = row[y as usize];
                if c < 0 {
                    0
                } else if c > MAX_EDGE_COST {
                    MAX_EDGE_COST
                } else {
                    c
                }
            } else {
                0
            }
        } else {
            0
        }
    }
}

impl FitnessFunction for CostMatrix {
    /// The tour length of the dna, clamped to the fitness range.
    open spec fn fitness_spec(&self, dna: Seq<Gene>) -> i64 {
        if spec_tour_cost(self, dna) > i64::MAX as int {
            i64::MAX
        } else {
            spec_tour_cost(self, dna) as i64
        }
    }

    fn fitness_of(&self, dna: &Vec<Gene>) -> (r: i64)
        ensures
            r == self.fitness_spec(dna@),
    {
        let len = dna.len();
        if len < 2 {
            return 0;
        }
        let mut acc: i128 = 0;
        let mut i: usize = 1;
        while i < len
            invariant
                1 <= i <= len,
                len == dna@.len(),
                2 <= len,
                acc as int == spec_tour_cost(self, dna@.take(i as int)),
                0 <= acc as int <= (i as int) * MAX_EDGE_COST as int,
            decreases len - i,
        {
            let e = self.edge(dna[i - 1].id, dna[i].id);
            proof {
                assert(dna@.take(i as int + 1).drop_last() =~= dna@.take(i as int));
                assert(dna@.take(i as int + 1)[i - 1] == dna@[i - 1]);
                assert(dna@.take(i as int + 1)[i as int] == dna@[i as int]);
                assert((i as int) * MAX_EDGE_COST as int + MAX_EDGE_COST as int == (i as int + 1)
                    * MAX_EDGE_COST as int) by (nonlinear_arith);
                assert((i as int + 1) * MAX_EDGE_COST as int <= 0x1_0000_0000_0000_0000i128
                    * MAX_EDGE_COST as int) by (nonlinear_arith)
                    requires
                        0 < i as int + 1 <= 0x1_0000_0000_0000_0000i128 as int,
                ;
            }
            acc = acc + (e as i128);
            i = i + 1;
        }
        proof {
            assert(dna@.take(len as int) =~= dna@);
        }
        if acc > i64::MAX as i128 {
            i64::MAX
        } else {
            acc as i64
        }
    }
}

} // verus!
