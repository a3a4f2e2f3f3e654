//! Crossover policies: combining two equal-length parent genomes into one
//! child genome.

use vstd::prelude::*;

use crate::chromosome::Chromosome;
use crate::rng::gen_range_u64;

verus! {

/// A policy that combines two parent genomes into a child genome. Every
/// child gene comes from the same position of one of the two parents.
pub trait CrossoverMethod {
    fn crossover(
        &self,
        rng: &mut rand::rngs::StdRng,
        parent_a: &Chromosome,
        parent_b: &Chromosome,
    ) -> (child: Chromosome)
        requires
            parent_a@.len() == parent_b@.len(),
        ensures
            child@.len() == parent_a@.len(),
            forall|i: int|
                0 <= i < child@.len() ==> #[trigger] child@[i] == parent_a@[i] || child@[i]
                    == parent_b@[i],
    ;
}

/// Uniform crossover: each gene is drawn from parent A or parent B with
/// equal probability, one fresh random decision per gene.
#[derive(Clone, Copy, Debug)]
pub struct UniformCrossover;

impl UniformCrossover {
    /// The uniform crossover policy.
    pub fn new() -> (r: UniformCrossover) {
        UniformCrossover
    }
}

impl CrossoverMethod for UniformCrossover {
    fn crossover(
        &self,
        rng: &mut rand::rngs::StdRng,
        parent_a: &Chromosome,
        parent_b: &Chromosome,
    ) -> (child: Chromosome) {
        let len = parent_a.len();
        let mut genes: Vec<i64> = Vec::new();
        let mut i: usize = 0;
        while i < len
            invariant
                i <= len,
                len == parent_a@.len(),
                parent_a@.len() == parent_b@.len(),
                genes@.len() == i,
                forall|k: int|
                    0 <= k < i ==> #[trigger] genes@[k] == parent_a@[k] || genes@[k]
                        == parent_b@[k],
            decreases len - i,
        {
            let coin = gen_range_u64(rng, 0, 2);
            if coin == 0 {
                genes.push(parent_a.gene(i));
            } else {
                genes.push(parent_b.gene(i));
            }
            i = i + 1;
        }
        Chromosome::from_genes(genes)
    }
}

} // verus!
