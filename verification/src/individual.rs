//! The capability the genetic algorithm needs from whatever it evolves:
//! a genome and a fitness value, plus reconstruction from a genome alone.

use vstd::prelude::*;

use crate::chromosome::Chromosome;

use vstd::pervasive::unreached;

verus! {

/// A fitness-bearing owner of a genome.
pub trait Individual: Sized {
    /// The genome, as a mathematical sequence.
    spec fn genome(&self) -> Seq<i64>;

    /// The fitness value the individual reports.
    spec fn fitness_spec(&self) -> u64;

    /// Whether the individual actually carries a genome that can be
    /// borrowed.
    spec fn has_genome(&self) -> bool;

    /// Wrap a genome as a fresh individual of unknown worth.
    fn create(chromosome: Chromosome) -> (r: Self)
        ensures
            r.genome() == chromosome@,
            r.has_genome(),
    ;

    /// Borrow the genome.
    fn chromosome(&self) -> (c: &Chromosome)
        requires
            self.has_genome(),
        ensures
            c@ == self.genome(),
    ;

    /// The fitness value.
    fn fitness(&self) -> (f: u64)
        ensures
            f == self.fitness_spec(),
    ;
}

/// Sum of a genome's genes, floored at zero and capped at `u64::MAX`: the
/// made-up worth a stand-in individual reports for its genome.
pub open spec fn gene_sum_clamped(s: Seq<i64>) -> u64 {
    clamp_u64(gene_sum(s))
}

/// Plain integer sum of a gene sequence.
pub open spec fn gene_sum(s: Seq<i64>) -> int
    decreases s.len(),
{
    if s.len() == 0 {
        0
    } else {
        gene_sum(s.drop_last()) + s.last()
    }
}

/// Clamp a mathematical integer into the `u64` range.
pub open spec fn clamp_u64(v: int) -> u64 {
    if v < 0 {
        0u64
    } else if v > u64::MAX as int {
        u64::MAX
    } else {
        v as u64
    }
}

/// A minimal individual used to exercise the genetic operators directly:
/// either a bare genome, or a bare fitness value.
#[derive(Clone, Debug)]
pub enum TestIndividual {
    WithChromosome { chromosome: Chromosome },
    WithFitness { fitness: u64 },
}

impl TestIndividual {
    /// An individual that is nothing but a fitness value.
    pub fn new(fitness: u64) -> (r: TestIndividual)
        ensures
            r.fitness_spec() == fitness,
            !r.has_genome(),
    {
        TestIndividual::WithFitness { fitness }
    }
}

impl Individual for TestIndividual {
    open spec fn genome(&self) -> Seq<i64> {
        match self {
            TestIndividual::WithChromosome { chromosome } => chromosome@,
            TestIndividual::WithFitness { .. } => Seq::empty(),
        }
    }

    open spec fn fitness_spec(&self) -> u64 {
        match self {
            TestIndividual::WithChromosome { chromosome } => gene_sum_clamped(chromosome@),
            TestIndividual::WithFitness { fitness } => *fitness,
        }
    }

    open spec fn has_genome(&self) -> bool {
        self is WithChromosome
    }

    fn create(chromosome: Chromosome) -> (r: Self) {
        TestIndividual::WithChromosome { chromosome }
    }

    fn chromosome(&self) -> (c: &Chromosome) {
        match self {
            TestIndividual::WithChromosome { chromosome } => chromosome,
            TestIndividual::WithFitness { .. } => unreached(),
        }
    }

    fn fitness(&self) -> (f: u64) {
        match self {
            TestIndividual::WithChromosome { chromosome } => {
                let len = chromosome.len();
                let mut acc: i128 = 0;
                let mut i: usize = 0;
                while i < len
                    invariant
                        i <= len,
                        len == chromosome@.len(),
                        acc as int == gene_sum(chromosome@.take(i as int)),
                        -(i as int) * (i64::MAX as int + 1) <= acc as int <= (i as int) * (
                        i64::MAX as int),
                    decreases len - i,
                {
                    proof {
                        assert(chromosome@.take(i + 1).drop_last() =~= chromosome@.take(i as int));
                        lemma_sum_step_bounds(i as int, len as int);
                    }
                    acc = acc + (chromosome.gene(i) as i128);
                    i = i + 1;
                }
                proof {
                    assert(chromosome@.take(len as int) =~= chromosome@);
                }
                if acc < 0 {
                    0
                } else if acc > (u64::MAX as i128) {
                    u64::MAX
                } else {
                    acc as u64
                }
            },
            TestIndividual::WithFitness { fitness } => *fitness,
        }
    }
}

/// Bounds needed while accumulating a gene sum in an `i128`.
proof fn lemma_sum_step_bounds(i: int, len: int)
    requires
        0 <= i < len,
        len <= usize::MAX as int,
    ensures
        -(i + 1) * (i64::MAX as int + 1) >= -(len as int) * (i64::MAX as int + 1),
        (i + 1) * (i64::MAX as int) <= (len as int) * (i64::MAX as int),
        -(i as int) * (i64::MAX as int + 1) - (i64::MAX as int + 1) == -(i + 1) * (
        i64::MAX as int + 1),
        (i as int) * (i64::MAX as int) + i64::MAX as int == (i + 1) * (i64::MAX as int),
        (len as int) * (i64::MAX as int + 1) < i128::MAX,
        -(len as int) * (i64::MAX as int + 1) > i128::MIN,
{
    assert(-(i + 1) * (i64::MAX as int + 1) >= -(len as int) * (i64::MAX as int + 1))
        by (nonlinear_arith)
        requires
            i + 1 <= len,
    ;
    assert((i + 1) * (i64::MAX as int) <= (len as int) * (i64::MAX as int)) by (nonlinear_arith)
        requires
            i + 1 <= len,
    ;
    assert(-(i as int) * (i64::MAX as int + 1) - (i64::MAX as int + 1) == -(i + 1) * (
    i64::MAX as int + 1)) by (nonlinear_arith);
    assert((i as int) * (i64::MAX as int) + i64::MAX as int == (i + 1) * (i64::MAX as int))
        by (nonlinear_arith);
    assert((len as int) * (i64::MAX as int + 1) < i128::MAX) by (nonlinear_arith)
        requires
            len <= usize::MAX as int,
    ;
    assert(-(len as int) * (i64::MAX as int + 1) > i128::MIN) by (nonlinear_arith)
        requires
            len <= usize::MAX as int,
    ;
}

} // verus!
