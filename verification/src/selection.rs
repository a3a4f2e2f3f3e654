//! Selection policies: picking one individual from a population, biased by
//! fitness.

use vstd::prelude::*;

use vstd::pervasive::unreached;

use crate::individual::Individual;
use crate::rng::gen_range_u64;

verus! {

/// How many stochastic-acceptance draws are attempted before the policy
/// falls back on a fittest individual.
pub const SELECT_RETRIES: u64 = 10_000;

/// A policy that picks one individual from a non-empty population, biased
/// towards higher fitness. The pre-computed population maximum is handed
/// in so that every pick of one generation uses the same scale. The picked
/// individual always has positive fitness.
pub trait SelectionMethod {
    fn select<I: Individual>(
        &self,
        rng: &mut rand::rngs::StdRng,
        population: &Vec<I>,
        max_fitness: u64,
    ) -> (idx: usize)
        requires
            population@.len() >= 1,
            max_fitness > 0,
            forall|i: int|
                0 <= i < population@.len() ==> (#[trigger] population@[i]).fitness_spec()
                    <= max_fitness,
            exists|i: int|
                0 <= i < population@.len() && (#[trigger] population@[i]).fitness_spec()
                    == max_fitness,
        ensures
            idx < population@.len(),
            population@[idx as int].fitness_spec() > 0,
    ;
}

/// Roulette-wheel (fitness-proportionate) selection by stochastic
/// acceptance: draw a uniformly random candidate and accept it with
/// probability `fitness / max_fitness`, retrying on rejection. After
/// `SELECT_RETRIES` rejections in a row a fittest individual is returned,
/// which is the candidate that is never rejected.
#[derive(Clone, Copy, Debug)]
pub struct RouletteWheelSelection;

impl RouletteWheelSelection {
    /// The roulette-wheel selection policy.
    pub fn new() -> (r: RouletteWheelSelection) {
        RouletteWheelSelection
    }
}

impl SelectionMethod for RouletteWheelSelection {
    fn select<I: Individual>(
        &self,
        rng: &mut rand::rngs::StdRng,
        population: &Vec<I>,
        max_fitness: u64,
    ) -> (idx: usize) {
        let len = population.len();
        let mut t: u64 = 0;
        while t < SELECT_RETRIES
            invariant
                population@.len() >= 1,
                len == population@.len(),
                max_fitness > 0,
            decreases SELECT_RETRIES - t,
        {
            let pick = gen_range_u64(rng, 0, len as u64) as usize;
            let draw = gen_range_u64(rng, 0, max_fitness);
            if draw < population[pick].fitness() {
                return pick;
            }
            t = t + 1;
        }
        let mut j: usize = 0;
        while j < len
            invariant
                j <= len,
                len == population@.len(),
                max_fitness > 0,
                forall|i: int|
                    0 <= i < population@.len() ==> (#[trigger] population@[i]).fitness_spec()
                        <= max_fitness,
                exists|i: int|
                    j <= i < population@.len() && (#[trigger] population@[i]).fitness_spec()
                        == max_fitness,
            decreases len - j,
        {
            if population[j].fitness() == max_fitness {
                return j;
            }
            j = j + 1;
        }
        proof {
            assert(false);
        }
        unreached()
    }
}

} // verus!
