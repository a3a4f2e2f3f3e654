//! The bridge between animals and the genetic algorithm: an individual that
//! pairs an animal's genome with its satiation-based fitness.

use vstd::prelude::*;

use crate::animal::Animal;
use crate::brain::topology_spec;
use crate::chromosome::{genes_bounded, Chromosome};
use crate::config::Config;
use crate::individual::Individual;
use crate::network::req_weights;

verus! {

/// One animal, reduced to what evolution needs: genome and fitness.
#[derive(Clone, Debug)]
pub struct AnimalIndividual {
    pub fitness: u64,
    pub chromosome: Chromosome,
}

impl AnimalIndividual {
    /// Harvest an animal: its flattened brain weights and its satiation.
    pub fn from_animal(animal: &Animal) -> (r: AnimalIndividual)
        ensures
            r.fitness == animal.satiation,
            r.chromosome@ == animal.brain.nn.flat(),
    {
        AnimalIndividual { fitness: animal.satiation, chromosome: animal.as_chromosome() }
    }

    /// Rebuild an animal around this individual's genome, with a freshly
    /// drawn pose and a satiation of zero.
    pub fn into_animal(self, config: &Config, rng: &mut rand::rngs::StdRng) -> (a: Animal)
        requires
            config.valid(),
            self.chromosome@.len() == req_weights(topology_spec(*config), 0),
            genes_bounded(self.chromosome@),
        ensures
            a.wf(*config),
            a.satiation == 0,
            a.speed == config.sim_speed_max,
            forall|i: int| 0 <= i < a.vision@.len() ==> #[trigger] a.vision@[i] == 0,
            a.brain.nn.flat() == self.chromosome@,
    {
        Animal::from_chromosome(config, rng, &self.chromosome)
    }
}

impl Individual for AnimalIndividual {
    open spec fn genome(&self) -> Seq<i64> {
        self.chromosome@
    }

    open spec fn fitness_spec(&self) -> u64 {
        self.fitness
    }

    open spec fn has_genome(&self) -> bool {
        true
    }

    fn create(chromosome: Chromosome) -> (r: Self) {
        AnimalIndividual { fitness: 0, chromosome }
    }

    fn chromosome(&self) -> (c: &Chromosome) {
        &self.chromosome
    }

    fn fitness(&self) -> (f: u64) {
        self.fitness
    }
}

} // verus!
