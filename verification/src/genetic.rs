//! The evolutionary engine: selection, crossover and mutation composed into
//! one whole-population evolution step.

use vstd::prelude::*;

use crate::chromosome::genes_bounded;
use crate::crossover::CrossoverMethod;
use crate::individual::Individual;
use crate::mutation::MutationMethod;
use crate::selection::SelectionMethod;
use crate::statistics::{fitness_seq, Statistics};

verus! {

/// A child genome bred from two parent genomes: all three share one length,
/// and every child gene lies within `delta` of the same-position gene of
/// one of the two parents (crossover picks a parent's gene, mutation moves
/// it by less than the coefficient).
pub open spec fn bred_from(delta: int, pa: Seq<i64>, pb: Seq<i64>, child: Seq<i64>) -> bool {
    &&& child.len() == pa.len()
    &&& pa.len() == pb.len()
    &&& forall|g: int|
        0 <= g < child.len() ==> (-delta <= #[trigger] child[g] - pa[g] <= delta) || (-delta
            <= child[g] - pb[g] <= delta)
}

/// The child genome has two parents somewhere in the population.
pub open spec fn has_parents<I: Individual>(delta: int, pop: Seq<I>, child: Seq<i64>) -> bool {
    exists|a: int, b: int|
        0 <= a < pop.len() && 0 <= b < pop.len() && bred_from(
            delta,
            (#[trigger] pop[a]).genome(),
            (#[trigger] pop[b]).genome(),
            child,
        )
}

/// One interchangeable strategy of each kind, chosen at construction time.
pub struct GeneticAlgorithm<S, C, M> {
    pub selection_method: S,
    pub crossover_method: C,
    pub mutation_method: M,
}

impl<S: SelectionMethod, C: CrossoverMethod, M: MutationMethod> GeneticAlgorithm<S, C, M> {
    /// Pair the three strategies into one engine.
    pub fn new(selection_method: S, crossover_method: C, mutation_method: M) -> (ga: Self)
        ensures
            ga.selection_method == selection_method,
            ga.crossover_method == crossover_method,
            ga.mutation_method == mutation_method,
    {
        GeneticAlgorithm { selection_method, crossover_method, mutation_method }
    }

    /// Produce a new population of the same size: each slot is filled by
    /// selecting two parents, crossing their genomes, and mutating the
    /// child, so every offspring is bred from two members of the input
    /// population. Also returns the statistics of the *input* population,
    /// the only point at which the old generation's fitnesses are
    /// observable.
    pub fn evolve<I: Individual>(&self, rng: &mut rand::rngs::StdRng, population: &Vec<I>) -> (r: (
        Vec<I>,
        Statistics,
    ))
        requires
            population@.len() >= 1,
            forall|i: int| 0 <= i < population@.len() ==> (#[trigger] population@[i]).has_genome(),
            forall|i: int|
                0 <= i < population@.len() ==> genes_bounded(
                    (#[trigger] population@[i]).genome(),
                ),
            forall|i: int|
                0 <= i < population@.len() ==> (#[trigger] population@[i]).genome().len()
                    == population@[0].genome().len(),
            exists|i: int|
                0 <= i < population@.len() && (#[trigger] population@[i]).fitness_spec() > 0,
        ensures
            r.0@.len() == population@.len(),
            forall|k: int|
                0 <= k < r.0@.len() ==> (#[trigger] r.0@[k]).has_genome() && r.0@[k].genome().len()
                    == population@[0].genome().len() && genes_bounded(r.0@[k].genome()),
            forall|k: int|
                0 <= k < r.0@.len() ==> has_parents(
                    self.mutation_method.max_delta(),
                    population@,
                    (#[trigger] r.0@[k]).genome(),
                ),
            r.1.describes(fitness_seq(population@)),
    {
        let len = population.len();
        let mut max_fitness: u64 = population[0].fitness();
        let mut i: usize = 1;
        while i < len
            invariant
                1 <= i <= len,
                len == population@.len(),
                forall|k: int|
                    0 <= k < i ==> (#[trigger] population@[k]).fitness_spec() <= max_fitness,
                exists|k: int|
                    0 <= k < i && (#[trigger] population@[k]).fitness_spec() == max_fitness,
            decreases len - i,
        {
            let f = population[i].fitness();
            if f > max_fitness {
                max_fitness = f;
            }
            i = i + 1;
        }
        proof {
            let w = choose|w: int|
                0 <= w < population@.len() && (#[trigger] population@[w]).fitness_spec() > 0;
            assert(population@[w].fitness_spec() <= max_fitness);
        }
        let mut new_population: Vec<I> = Vec::new();
        let mut k: usize = 0;
        while k < len
            invariant
                k <= len,
                len == population@.len(),
                population@.len() >= 1,
                max_fitness > 0,
                forall|i2: int|
                    0 <= i2 < population@.len() ==> (#[trigger] population@[i2]).has_genome(),
                forall|i2: int|
                    0 <= i2 < population@.len() ==> genes_bounded(
                        (#[trigger] population@[i2]).genome(),
                    ),
                forall|i2: int|
                    0 <= i2 < population@.len() ==> (#[trigger] population@[i2]).genome().len()
                        == population@[0].genome().len(),
                forall|i2: int|
                    0 <= i2 < population@.len() ==> (#[trigger] population@[i2]).fitness_spec()
                        <= max_fitness,
                exists|i2: int|
                    0 <= i2 < population@.len() && (#[trigger] population@[i2]).fitness_spec()
                        == max_fitness,
                new_population@.len() == k,
                forall|j: int|
                    0 <= j < k ==> (#[trigger] new_population@[j]).has_genome()
                        && new_population@[j].genome().len() == population@[0].genome().len()
                        && genes_bounded(new_population@[j].genome()),
                forall|j: int|
                    0 <= j < k ==> has_parents(
                        self.mutation_method.max_delta(),
                        population@,
                        (#[trigger] new_population@[j]).genome(),
                    ),
            decreases len - k,
        {
            let a = self.selection_method.select(rng, population, max_fitness);
            let b = self.selection_method.select(rng, population, max_fitness);
            let parent_a = population[a].chromosome();
            let parent_b = population[b].chromosome();
            let mut child = self.crossover_method.crossover(rng, parent_a, parent_b);
            proof {
                assert forall|g: int| 0 <= g < child@.len() implies crate::fx::fx_bounded(
                    #[trigger] child@[g],
                ) by {
                    assert(child@[g] == parent_a@[g] || child@[g] == parent_b@[g]);
                }
            }
            let ghost crossed = child@;
            proof {
                assert(genes_bounded(crossed));
            }
            self.mutation_method.mutate(rng, &mut child);
            let ghost prev_np = new_population@;
            let offspring = I::create(child);
            new_population.push(offspring);
            proof {
                let md = self.mutation_method.max_delta();
                let slot = new_population@[k as int];
                assert(slot == offspring);
                assert(slot.genome() == child@);
                assert(population@[a as int].genome().len() == population@[0].genome().len());
                assert(population@[b as int].genome().len() == population@[0].genome().len());
                assert(parent_a@ == population@[a as int].genome());
                assert(parent_b@ == population@[b as int].genome());
                assert forall|g: int|
                    0 <= g < slot.genome().len() implies (-md <= #[trigger] slot.genome()[g]
                        - population@[a as int].genome()[g] <= md) || (-md <= slot.genome()[g]
                        - population@[b as int].genome()[g] <= md) by {
                    assert(crossed[g] == parent_a@[g] || crossed[g] == parent_b@[g]);
                    assert(-md <= child@[g] - crossed[g] <= md);
                }
                assert(bred_from(
                    md,
                    population@[a as int].genome(),
                    population@[b as int].genome(),
                    slot.genome(),
                ));
                assert forall|j: int| 0 <= j < k + 1 implies has_parents(
                    md,
                    population@,
                    (#[trigger] new_population@[j]).genome(),
                ) by {
                    if j < k {
                        assert(new_population@[j] == prev_np[j]);
                        assert(has_parents(md, population@, prev_np[j].genome()));
                    } else {
                        assert(new_population@[j].genome() == slot.genome());
                        assert(0 <= (a as int) && (a as int) < population@.len() && 0 <= (
                        b as int) && (b as int) < population@.len() && bred_from(
                            md,
                            population@[a as int].genome(),
                            population@[b as int].genome(),
                            slot.genome(),
                        ));
                        assert(has_parents(md, population@, slot.genome()));
                    }
                }
            }
            k = k + 1;
        }
        let statistics = Statistics::new(population);
        (new_population, statistics)
    }
}

} // verus!
