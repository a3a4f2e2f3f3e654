//! Genomes: fixed-length sequences of fixed-point genes, the unit the
//! genetic algorithm evolves. A genome is exactly one flattened set of
//! neural-network weights.

use vstd::prelude::*;

use crate::fx::fx_bounded;

verus! {

/// Every gene of the sequence lies in the scalar domain.
pub open spec fn genes_bounded(s: Seq<i64>) -> bool {
    forall|i: int| 0 <= i < s.len() ==> fx_bounded(#[trigger] s[i])
}

/// An ordered sequence of fixed-point genes.
#[derive(Clone, Debug)]
pub struct Chromosome {
    genes: Vec<i64>,
}

impl View for Chromosome {
    type V = Seq<i64>;

    closed spec fn view(&self) -> Seq<i64> {
        self.genes@
    }
}

impl Chromosome {
    /// Wrap a gene vector as a chromosome.
    pub fn from_genes(genes: Vec<i64>) -> (c: Chromosome)
        ensures
            c@ == genes@,
    {
        Chromosome { genes }
    }

    /// Number of genes.
    pub fn len(&self) -> (n: usize)
        ensures
            n == self@.len(),
    {
        self.genes.len()
    }

    /// Whether the genome carries no genes at all.
    pub fn is_empty(&self) -> (b: bool)
        ensures
            b == (self@.len() == 0),
    {
        self.genes.len() == 0
    }

    /// The gene at position `i`.
    pub fn gene(&self, i: usize) -> (g: i64)
        requires
            i < self@.len(),
        ensures
            g == self@[i as int],
    {
        self.genes[i]
    }

    /// Replace the gene at position `i`.
    pub fn set_gene(&mut self, i: usize, g: i64)
        requires
            i < old(self)@.len(),
        ensures
            final(self)@ == old(self)@.update(i as int, g),
    {
        self.genes.set(i, g);
    }

    /// The genes, in order.
    pub fn genes(&self) -> (v: &Vec<i64>)
        ensures
            v@ == self@,
    {
        &self.genes
    }
}

} // verus!
