//! The world: an unordered population of animals and a fixed stock of food.

use vstd::prelude::*;

use crate::animal::Animal;
use crate::config::Config;
use crate::food::Food;

verus! {

/// All animals and foods of the current generation.
#[derive(Clone, Debug)]
pub struct World {
    pub animals: Vec<Animal>,
    pub foods: Vec<Food>,
}

impl World {
    /// Shape invariants: the configured counts, every animal and food well
    /// formed.
    pub open spec fn wf(&self, cfg: Config) -> bool {
        &&& self.animals@.len() == cfg.world_animals
        &&& self.foods@.len() == cfg.world_foods
        &&& forall|i: int| 0 <= i < self.animals@.len() ==> (#[trigger] self.animals@[i]).wf(cfg)
        &&& forall|i: int| 0 <= i < self.foods@.len() ==> (#[trigger] self.foods@[i]).valid()
    }

    /// The animals, in storage order.
    pub fn animals(&self) -> (r: &Vec<Animal>)
        ensures
            r@ == self.animals@,
    {
        &self.animals
    }

    /// The foods, in storage order.
    pub fn foods(&self) -> (r: &Vec<Food>)
        ensures
            r@ == self.foods@,
    {
        &self.foods
    }

    /// A fresh world: the configured number of random animals and foods.
    pub fn random(config: &Config, rng: &mut rand::rngs::StdRng) -> (w: World)
        requires
            config.valid(),
        ensures
            w.wf(*config),
            forall|i: int|
                0 <= i < w.animals@.len() ==> (#[trigger] w.animals@[i]).satiation == 0
                    && w.animals@[i].speed == config.sim_speed_max && (forall|c: int|
                    0 <= c < w.animals@[i].vision@.len() ==> #[trigger] w.animals@[i].vision@[c]
                        == 0),
    {
        let mut animals: Vec<Animal> = Vec::new();
        let mut i: usize = 0;
        while i < config.world_animals
            invariant
                i <= config.world_animals,
                config.valid(),
                animals@.len() == i,
                forall|k: int|
                    0 <= k < i ==> (#[trigger] animals@[k]).wf(*config) && animals@[k].satiation
                        == 0 && animals@[k].speed == config.sim_speed_max && (forall|c: int|
                        0 <= c < animals@[k].vision@.len() ==> #[trigger] animals@[k].vision@[c]
                            == 0),
            decreases config.world_animals - i,
        {
            let a = Animal::random(config, rng);
            animals.push(a);
            i = i + 1;
        }
        let mut foods: Vec<Food> = Vec::new();
        let mut j: usize = 0;
        while j < config.world_foods
            invariant
                j <= config.world_foods,
                foods@.len() == j,
                forall|k: int| 0 <= k < j ==> (#[trigger] foods@[k]).valid(),
            decreases config.world_foods - j,
        {
            let f = Food::random(rng);
            foods.push(f);
            j = j + 1;
        }
        World { animals, foods }
    }
}

} // verus!
