//! The simulation engine: the per-tick loop of feeding, perception,
//! decision and movement, and the generation-boundary evolution step.

use vstd::prelude::*;

use crate::animal::{brain_step_rel, movement_rel, Animal, RAD_TO_TURN};
use crate::animal_individual::AnimalIndividual;
use crate::brain::{brain_deltas, topology_spec};
use crate::chromosome::genes_bounded;
use crate::config::Config;
use crate::crossover::UniformCrossover;
use crate::food::Food;
use crate::eye::eye_energies;
use crate::fx::{clamp_spec, fx_mul_spec, SCALE};
use crate::genetic::{bred_from, has_parents, GeneticAlgorithm};
use crate::individual::Individual;
use crate::mutation::{MutationMethod, SkewMutation};
use crate::network::{lemma_flat_bounded, lemma_flat_len, req_weights};
use crate::selection::RouletteWheelSelection;
use crate::statistics::fitness_seq;
use crate::trig::{cos_spec, sin_spec, wrap_spec, TURN};
use crate::world::World;

verus! {

/// The satiation of each animal, in order: the raw per-generation fitness.
pub open spec fn true_fits(ws: Seq<Animal>) -> Seq<u64> {
    ws.map_values(|a: Animal| a.satiation)
}

/// The largest satiation of a population (zero when empty).
pub open spec fn max_sat(ws: Seq<Animal>) -> u64
    decreases ws.len(),
{
    if ws.len() == 0 {
        0
    } else {
        let m = max_sat(ws.drop_last());
        if ws.last().satiation > m {
            ws.last().satiation
        } else {
            m
        }
    }
}

/// No satiation exceeds the population maximum.
pub proof fn lemma_max_sat(ws: Seq<Animal>)
    ensures
        forall|i: int| 0 <= i < ws.len() ==> (#[trigger] ws[i]).satiation <= max_sat(ws),
    decreases ws.len(),
{
    if ws.len() > 0 {
        lemma_max_sat(ws.drop_last());
        assert forall|i: int| 0 <= i < ws.len() implies (#[trigger] ws[i]).satiation <= max_sat(ws) by {
            if i < ws.len() - 1 {
                assert(ws.drop_last()[i] == ws[i]);
            }
        }
    }
}

/// What each animal is worth to evolution: its satiation, or — when the
/// configuration reverses fitness — the population maximum minus its own.
pub open spec fn harvest_fits(cfg: Config, ws: Seq<Animal>) -> Seq<u64> {
    if cfg.ga_reverse != 0 {
        ws.map_values(|a: Animal| (max_sat(ws) - a.satiation) as u64)
    } else {
        true_fits(ws)
    }
}

/// One ordinary tick of a single animal, relative to the food table the
/// feeding pass leaves behind: the satiation grows by at most the food
/// count; the vision becomes the eye reading of that table from the
/// pre-tick pose; the brain's deltas steer the clamped speed and the
/// wrapped heading; and the position advances one speed step along the new
/// heading, wrapped back into the world square.
pub open spec fn tick_rel(cfg: Config, foods: Seq<Food>, pre: Animal, post: Animal) -> bool {
    &&& pre.satiation <= post.satiation <= pre.satiation + cfg.world_foods
    &&& post.brain == pre.brain
    &&& post.vision@.len() == cfg.eye_cells
    &&& (forall|c: int|
        0 <= c < cfg.eye_cells ==> #[trigger] post.vision@[c] as int == eye_energies(
            cfg,
            pre.x as int,
            pre.y as int,
            pre.rotation as int,
            foods,
        )[c])
    &&& ({
        let deltas = brain_deltas(pre.brain, post.vision@);
        &&& post.speed as int == clamp_spec(
            pre.speed + deltas.0,
            cfg.sim_speed_min as int,
            cfg.sim_speed_max as int,
        )
        &&& post.rotation as int == wrap_spec(
            pre.rotation + fx_mul_spec(deltas.1 as i64, RAD_TO_TURN),
            TURN as int,
        )
    })
    &&& post.x == wrap_spec(
        pre.x - fx_mul_spec(post.speed, sin_spec(post.rotation as int) as i64),
        SCALE as int,
    ) as i64
    &&& post.y == wrap_spec(
        pre.y + fx_mul_spec(post.speed, cos_spec(post.rotation as int) as i64),
        SCALE as int,
    ) as i64
}

/// One ordinary tick of the whole population against one post-feeding food
/// table: the configured number of valid foods, and every animal related to
/// its predecessor by the tick laws.
pub open spec fn tick_transition(
    cfg: Config,
    foods: Seq<Food>,
    pre: Seq<Animal>,
    post: Seq<Animal>,
) -> bool {
    &&& foods.len() == cfg.world_foods
    &&& (forall|k: int| 0 <= k < foods.len() ==> (#[trigger] foods[k]).valid())
    &&& pre.len() == post.len()
    &&& forall|i: int| 0 <= i < pre.len() ==> tick_rel(cfg, foods, #[trigger] pre[i], post[i])
}

/// The population as a generation boundary harvests it: each animal is the
/// pre-tick one with only its satiation grown by that tick's feeding.
pub open spec fn boundary_harvest(cfg: Config, pre: Seq<Animal>, ws: Seq<Animal>) -> bool {
    &&& ws.len() == pre.len()
    &&& forall|i: int|
        0 <= i < ws.len() ==> #[trigger] ws[i] == (Animal { satiation: ws[i].satiation, ..pre[i] })
            && pre[i].satiation <= ws[i].satiation <= pre[i].satiation + cfg.world_foods
}

/// A genome bred at a generation boundary: two members of the harvested
/// population exist such that every gene of the child lies within the
/// configured mutation coefficient of one of their genes at that position.
pub open spec fn offspring_of(cfg: Config, pre: Seq<Animal>, child: Seq<i64>) -> bool {
    exists|a: int, b: int|
        0 <= a < pre.len() && 0 <= b < pre.len() && bred_from(
            cfg.ga_mut_coeff as int,
            (#[trigger] pre[a]).brain.nn.flat(),
            (#[trigger] pre[b]).brain.nn.flat(),
            child,
        )
}

/// Satiation-for-satiation equal populations have the same maximum.
proof fn lemma_max_sat_congruent(ws1: Seq<Animal>, ws2: Seq<Animal>)
    requires
        ws1.len() == ws2.len(),
        forall|i: int| 0 <= i < ws1.len() ==> (#[trigger] ws1[i]).satiation == ws2[i].satiation,
    ensures
        max_sat(ws1) == max_sat(ws2),
    decreases ws1.len(),
{
    if ws1.len() > 0 {
        assert forall|i: int| 0 <= i < ws1.drop_last().len() implies (
        #[trigger] ws1.drop_last()[i]).satiation == ws2.drop_last()[i].satiation by {
            assert(ws1.drop_last()[i] == ws1[i]);
            assert(ws2.drop_last()[i] == ws2[i]);
            assert(ws1[i].satiation == ws2[i].satiation);
        }
        lemma_max_sat_congruent(ws1.drop_last(), ws2.drop_last());
        assert(ws1.last().satiation == ws2.last().satiation);
    }
}

/// Satiation-for-satiation equal populations harvest the same fitnesses.
proof fn lemma_harvest_congruent(cfg: Config, ws1: Seq<Animal>, ws2: Seq<Animal>)
    requires
        ws1.len() == ws2.len(),
        forall|i: int| 0 <= i < ws1.len() ==> (#[trigger] ws1[i]).satiation == ws2[i].satiation,
    ensures
        harvest_fits(cfg, ws1) == harvest_fits(cfg, ws2),
{
    lemma_max_sat_congruent(ws1, ws2);
    assert(harvest_fits(cfg, ws1) =~= harvest_fits(cfg, ws2));
}

/// The statistics of one finished generation, tagged with its index.
#[derive(Clone, Debug)]
pub struct Statistics {
    pub generation: usize,
    pub ga: crate::statistics::Statistics,
}

/// The engine: the configuration it was built with, the current world, the
/// tick counter of the running generation, and the generation counter.
pub struct Simulation {
    pub config: Config,
    pub world: World,
    pub age: usize,
    pub generation: usize,
}

impl Simulation {
    /// The engine's running invariant: a valid configuration, a well-formed
    /// world of the configured shape, a tick counter inside the generation,
    /// and satiations that the elapsed ticks can account for.
    pub open spec fn wf(&self) -> bool {
        &&& self.config.valid()
        &&& self.age < self.config.sim_generation_length
        &&& self.world.wf(self.config)
        &&& forall|i: int|
            0 <= i < self.world.animals@.len() ==> (
            #[trigger] self.world.animals@[i]).satiation as int <= (self.age as int) * (
            self.config.world_foods as int)
    }

    /// A fresh simulation over a random world, at tick zero of generation
    /// zero. Construction refuses an invalid configuration by precondition.
    pub fn random(config: Config, rng: &mut rand::rngs::StdRng) -> (s: Simulation)
        requires
            config.valid(),
        ensures
            s.wf(),
            s.config == config,
            s.age == 0,
            s.generation == 0,
            forall|i: int|
                0 <= i < s.world.animals@.len() ==> (#[trigger] s.world.animals@[i]).satiation == 0
                    && s.world.animals@[i].speed == config.sim_speed_max && (forall|c: int|
                    0 <= c < s.world.animals@[i].vision@.len()
                        ==> #[trigger] s.world.animals@[i].vision@[c] == 0),
    {
        let world = World::random(&config, rng);
        Simulation { config, world, age: 0, generation: 0 }
    }

    /// The configuration the engine runs under.
    pub fn config(&self) -> (c: &Config)
        ensures
            *c == self.config,
    {
        &self.config
    }

    /// The current world, read-only.
    pub fn world(&self) -> (w: &World)
        ensures
            *w == self.world,
    {
        &self.world
    }

    /// The tick index inside the running generation.
    pub fn age(&self) -> (a: usize)
        ensures
            a == self.age,
    {
        self.age
    }

    /// The index of the running generation.
    pub fn generation(&self) -> (g: usize)
        ensures
            g == self.generation,
    {
        self.generation
    }

    /// The feeding pass: every animal close enough to a food eats it, its
    /// satiation grows by one per food, and the eaten food reappears at a
    /// fresh random spot. Nothing but satiations and food positions moves.
    fn process_collisions(&mut self, rng: &mut rand::rngs::StdRng)
        requires
            old(self).config.valid(),
            old(self).world.wf(old(self).config),
            forall|i: int|
                0 <= i < old(self).world.animals@.len() ==> (
                #[trigger] old(self).world.animals@[i]).satiation as int + (old(self).config.world_foods as int) <= u64::MAX as int,
        ensures
            final(self).config == old(self).config,
            final(self).age == old(self).age,
            final(self).generation == old(self).generation,
            final(self).world.wf(old(self).config),
            final(self).world.animals@.len() == old(self).world.animals@.len(),
            forall|i: int|
                0 <= i < final(self).world.animals@.len() ==> #[trigger] final(self).world.animals@[i] == (Animal {
                    satiation: final(self).world.animals@[i].satiation,
                    ..old(self).world.animals@[i]
                }),
            forall|i: int|
                0 <= i < final(self).world.animals@.len() ==> old(self).world.animals@[i].satiation
                    <= #[trigger] final(self).world.animals@[i].satiation && final(self).world.animals@[i].satiation as int <= old(self).world.animals@[i].satiation as int
                    + old(self).config.world_foods as int,
    {
        let alen = self.world.animals.len();
        let mut i: usize = 0;
        while i < alen
            invariant
                i <= alen,
                self.config == old(self).config,
                self.age == old(self).age,
                self.generation == old(self).generation,
                self.config.valid(),
                alen == self.world.animals@.len(),
                self.world.animals@.len() == old(self).world.animals@.len(),
                self.world.foods@.len() == old(self).world.foods@.len(),
                self.world.foods@.len() == self.config.world_foods,
                forall|k: int|
                    0 <= k < self.world.foods@.len() ==> (#[trigger] self.world.foods@[k]).valid(),
                forall|k: int|
                    0 <= k < alen ==> #[trigger] self.world.animals@[k] == (Animal {
                        satiation: self.world.animals@[k].satiation,
                        ..old(self).world.animals@[k]
                    }),
                forall|k: int|
                    0 <= k < alen ==> (#[trigger] self.world.animals@[k]).wf(self.config),
                forall|k: int|
                    0 <= k < i ==> old(self).world.animals@[k].satiation <= #[trigger] self.world.animals@[k].satiation
                        && self.world.animals@[k].satiation as int <= old(self).world.animals@[k].satiation as int + self.config.world_foods as int,
                forall|k: int|
                    i <= k < alen ==> #[trigger] self.world.animals@[k].satiation == old(self).world.animals@[k].satiation,
                forall|k: int|
                    0 <= k < alen ==> (#[trigger] old(self).world.animals@[k]).satiation as int + (
                    self.config.world_foods as int) <= u64::MAX as int,
            decreases alen - i,
        {
            let ax = self.world.animals[i].x;
            let ay = self.world.animals[i].y;
            let radius = self.config.food_size;
            let mut count: u64 = 0;
            let flen = self.world.foods.len();
            let ghost pre_world = self.world.animals@;
            let mut j: usize = 0;
            while j < flen
                invariant
                    j <= flen,
                    count <= j as u64,
                    flen == self.world.foods@.len(),
                    flen == self.config.world_foods,
                    self.config == old(self).config,
                    self.age == old(self).age,
                    self.generation == old(self).generation,
                    self.config.valid(),
                    self.world.animals@ == pre_world,
                    forall|k: int|
                        0 <= k < self.world.foods@.len() ==> (
                        #[trigger] self.world.foods@[k]).valid(),
                    0 <= ax < SCALE,
                    0 <= ay < SCALE,
                    0 <= radius <= SCALE,
                decreases flen - j,
            {
                let fx_ = self.world.foods[j].x;
                let fy = self.world.foods[j].y;
                let dx = fx_ - ax;
                let dy = fy - ay;
                proof {
                    assert(0 <= dx * dx <= (SCALE as int) * (SCALE as int)) by (nonlinear_arith)
                        requires
                            -(SCALE as int) <= dx as int <= SCALE as int,
                    ;
                    assert(0 <= dy * dy <= (SCALE as int) * (SCALE as int)) by (nonlinear_arith)
                        requires
                            -(SCALE as int) <= dy as int <= SCALE as int,
                    ;
                    assert(0 <= radius * radius <= (SCALE as int) * (SCALE as int))
                        by (nonlinear_arith)
                        requires
                            0 <= radius as int <= SCALE as int,
                    ;
                }
                let d2 = dx * dx + dy * dy;
                if d2 <= radius * radius {
                    count = count + 1;
                    let nf = Food::random(rng);
                    self.world.foods.set(j, nf);
                }
                j = j + 1;
            }
            let a = &mut self.world.animals[i];
            a.satiation = a.satiation + count;
            i = i + 1;
        }
    }

    /// The perception-and-decision pass: every animal recomputes its eye
    /// against the current foods and applies its brain's steering deltas.
    /// Positions, satiations and the foods do not move here.
    fn process_brains(&mut self)
        requires
            old(self).config.valid(),
            old(self).world.wf(old(self).config),
        ensures
            final(self).config == old(self).config,
            final(self).age == old(self).age,
            final(self).generation == old(self).generation,
            final(self).world.foods@ == old(self).world.foods@,
            final(self).world.wf(old(self).config),
            final(self).world.animals@.len() == old(self).world.animals@.len(),
            forall|i: int|
                0 <= i < final(self).world.animals@.len() ==> brain_step_rel(
                    old(self).config,
                    old(self).world.foods@,
                    old(self).world.animals@[i],
                    #[trigger] final(self).world.animals@[i],
                ),
    {
        let alen = self.world.animals.len();
        let mut i: usize = 0;
        while i < alen
            invariant
                i <= alen,
                self.config == old(self).config,
                self.age == old(self).age,
                self.generation == old(self).generation,
                self.config.valid(),
                alen == self.world.animals@.len(),
                self.world.animals@.len() == old(self).world.animals@.len(),
                self.world.foods@ == old(self).world.foods@,
                self.world.foods@.len() == self.config.world_foods,
                forall|k: int|
                    0 <= k < self.world.foods@.len() ==> (#[trigger] self.world.foods@[k]).valid(),
                forall|k: int|
                    0 <= k < alen ==> (#[trigger] self.world.animals@[k]).wf(self.config),
                forall|k: int|
                    0 <= k < i ==> brain_step_rel(
                        old(self).config,
                        old(self).world.foods@,
                        old(self).world.animals@[k],
                        #[trigger] self.world.animals@[k],
                    ),
                forall|k: int|
                    i <= k < alen ==> #[trigger] self.world.animals@[k] == old(
                    self,
                    ).world.animals@[k],
            decreases alen - i,
        {
            let a = &mut self.world.animals[i];
            a.process_brain(&self.config, &self.world.foods);
            i = i + 1;
        }
    }

    /// The movement pass: every animal advances along its heading and wraps
    /// back into the world square. Satiations do not move here.
    fn process_movements(&mut self)
        requires
            old(self).config.valid(),
            old(self).world.wf(old(self).config),
        ensures
            final(self).config == old(self).config,
            final(self).age == old(self).age,
            final(self).generation == old(self).generation,
            final(self).world.foods@ == old(self).world.foods@,
            final(self).world.wf(old(self).config),
            final(self).world.animals@.len() == old(self).world.animals@.len(),
            forall|i: int|
                0 <= i < final(self).world.animals@.len() ==> movement_rel(
                    old(self).world.animals@[i],
                    #[trigger] final(self).world.animals@[i],
                ),
    {
        let alen = self.world.animals.len();
        let mut i: usize = 0;
        while i < alen
            invariant
                i <= alen,
                self.config == old(self).config,
                self.age == old(self).age,
                self.generation == old(self).generation,
                self.config.valid(),
                alen == self.world.animals@.len(),
                self.world.animals@.len() == old(self).world.animals@.len(),
                self.world.foods@ == old(self).world.foods@,
                forall|k: int|
                    0 <= k < self.world.foods@.len() ==> (#[trigger] self.world.foods@[k]).valid(),
                self.world.foods@.len() == self.config.world_foods,
                forall|k: int|
                    0 <= k < alen ==> (#[trigger] self.world.animals@[k]).wf(self.config),
                forall|k: int|
                    0 <= k < i ==> movement_rel(
                        old(self).world.animals@[k],
                        #[trigger] self.world.animals@[k],
                    ),
                forall|k: int|
                    i <= k < alen ==> #[trigger] self.world.animals@[k] == old(
                    self,
                    ).world.animals@[k],
            decreases alen - i,
        {
            let a = &mut self.world.animals[i];
            a.process_movement();
            i = i + 1;
        }
    }

    /// The generation boundary: harvest every animal's genome and fitness,
    /// take the statistics of that harvest, breed the next population, give
    /// the foods fresh random spots, reset the tick counter and advance the
    /// generation counter.
    ///
    /// A generation in which no fitness separates the animals (every
    /// harvested fitness is zero) is bred uniformly: selection then sees
    /// every animal with the same weight. The returned statistics always
    /// describe the true harvested fitnesses.
    #[verifier::rlimit(60)]
    fn evolve(&mut self, rng: &mut rand::rngs::StdRng) -> (st: Statistics)
        requires
            old(self).config.valid(),
            old(self).world.wf(old(self).config),
            old(self).generation < usize::MAX,
        ensures
            final(self).config == old(self).config,
            final(self).age == 0,
            final(self).generation == old(self).generation + 1,
            final(self).wf(),
            forall|i: int|
                0 <= i < final(self).world.animals@.len() ==> (#[trigger] final(self).world.animals@[i]).satiation == 0
                    && final(self).world.animals@[i].speed == old(self).config.sim_speed_max && (
                forall|c: int|
                    0 <= c < final(self).world.animals@[i].vision@.len()
                        ==> #[trigger] final(self).world.animals@[i].vision@[c] == 0),
            forall|k: int|
                0 <= k < final(self).world.animals@.len() ==> offspring_of(
                    old(self).config,
                    old(self).world.animals@,
                    (#[trigger] final(self).world.animals@[k]).brain.nn.flat(),
                ),
            st.generation == old(self).generation,
            st.ga.describes(harvest_fits(old(self).config, old(self).world.animals@)),
    {
        self.age = 0;
        self.generation = self.generation + 1;
        let ghost pre = old(self).world.animals@;
        let alen = self.world.animals.len();
        let mut individuals: Vec<AnimalIndividual> = Vec::new();
        let mut i: usize = 0;
        while i < alen
            invariant
                i <= alen,
                self.config == old(self).config,
                self.age == 0,
                self.generation as int == old(self).generation as int + 1,
                self.world.foods@ == old(self).world.foods@,
                alen == self.world.animals@.len(),
                self.world.animals@ == pre,
                individuals@.len() == i,
                forall|k: int|
                    0 <= k < i ==> (#[trigger] individuals@[k]).fitness == pre[k].satiation
                        && individuals@[k].chromosome@ == pre[k].brain.nn.flat(),
            decreases alen - i,
        {
            let ind = AnimalIndividual::from_animal(&self.world.animals[i]);
            individuals.push(ind);
            i = i + 1;
        }
        if self.config.ga_reverse != 0 {
            let mut max_fit: u64 = 0;
            let mut k: usize = 0;
            while k < alen
                invariant
                    k <= alen,
                    self.config == old(self).config,
                    self.age == 0,
                    self.generation as int == old(self).generation as int + 1,
                    self.world.foods@ == old(self).world.foods@,
                    alen == self.world.animals@.len(),
                    self.world.animals@ == pre,
                    max_fit as int == max_sat(pre.take(k as int)),
                decreases alen - k,
            {
                proof {
                    assert(pre.take(k + 1).drop_last() =~= pre.take(k as int));
                    assert(pre.take(k + 1).last() == pre[k as int]);
                }
                let s = self.world.animals[k].satiation;
                if s > max_fit {
                    max_fit = s;
                }
                k = k + 1;
            }
            proof {
                assert(pre.take(alen as int) =~= pre);
                lemma_max_sat(pre);
            }
            let mut r: usize = 0;
            while r < alen
                invariant
                    r <= alen,
                    self.config == old(self).config,
                    self.age == 0,
                    self.generation as int == old(self).generation as int + 1,
                    self.world.foods@ == old(self).world.foods@,
                    alen == self.world.animals@.len(),
                    self.world.animals@ == pre,
                    individuals@.len() == alen,
                    max_fit == max_sat(pre),
                    forall|k2: int| 0 <= k2 < pre.len() ==> (#[trigger] pre[k2]).satiation <= max_fit,
                    forall|k2: int|
                        r <= k2 < alen ==> (#[trigger] individuals@[k2]).fitness
                            == pre[k2].satiation && individuals@[k2].chromosome@
                            == pre[k2].brain.nn.flat(),
                    forall|k2: int|
                        0 <= k2 < r ==> (#[trigger] individuals@[k2]).fitness as int == max_fit
                            - pre[k2].satiation && individuals@[k2].chromosome@
                            == pre[k2].brain.nn.flat(),
                decreases alen - r,
            {
                let ind = &mut individuals[r];
                ind.fitness = max_fit - ind.fitness;
                r = r + 1;
            }
        }
        proof {
            let fits = harvest_fits(self.config, pre);
            assert(fitness_seq(individuals@) =~= fits);
        }
        let stats = crate::statistics::Statistics::new(&individuals);
        let mut max_fit: u64 = 0;
        let mut m: usize = 0;
        while m < alen
            invariant
                m <= alen,
                self.config == old(self).config,
                self.age == 0,
                self.generation as int == old(self).generation as int + 1,
                self.world.foods@ == old(self).world.foods@,
                self.world.animals@ == pre,
                alen == individuals@.len(),
                forall|k: int| 0 <= k < m ==> (#[trigger] individuals@[k]).fitness <= max_fit,
                max_fit == 0 || exists|k: int|
                    0 <= k < m && (#[trigger] individuals@[k]).fitness == max_fit,
            decreases alen - m,
        {
            let f = individuals[m].fitness;
            if f > max_fit {
                max_fit = f;
            }
            m = m + 1;
        }
        if max_fit == 0 {
            let mut b: usize = 0;
            while b < alen
                invariant
                    b <= alen,
                    self.config == old(self).config,
                    self.age == 0,
                    self.generation as int == old(self).generation as int + 1,
                    self.world.foods@ == old(self).world.foods@,
                    self.world.animals@ == pre,
                    alen == individuals@.len(),
                    forall|k: int| 0 <= k < b ==> (#[trigger] individuals@[k]).fitness == 1,
                    forall|k: int|
                        b <= k < alen ==> (#[trigger] individuals@[k]).chromosome@
                            == individuals@[k].chromosome@,
                    forall|k: int|
                        0 <= k < alen ==> (#[trigger] individuals@[k]).chromosome@ == pre[k
                            as int].brain.nn.flat(),
                    pre.len() == alen,
                decreases alen - b,
            {
                let ind = &mut individuals[b];
                ind.fitness = 1;
                b = b + 1;
            }
        }
        proof {
            assert forall|k: int| 0 <= k < individuals@.len() implies (
            #[trigger] individuals@[k]).has_genome() && genes_bounded(individuals@[k].genome())
                && individuals@[k].genome().len() == individuals@[0].genome().len() by {
                assert(pre[k].wf(self.config));
                assert(pre[0].wf(self.config));
                lemma_flat_bounded(pre[k].brain.nn);
                lemma_flat_len(pre[k].brain.nn, topology_spec(self.config));
                lemma_flat_len(pre[0].brain.nn, topology_spec(self.config));
            }
            assert(individuals@.len() >= 1);
            if max_fit == 0 {
                assert(individuals@[0].fitness_spec() == 1);
            } else {
                let w = choose|k: int|
                    0 <= k < individuals@.len() && (#[trigger] individuals@[k]).fitness == max_fit;
                assert(individuals@[w].fitness_spec() > 0);
            }
            assert(exists|k: int|
                0 <= k < individuals@.len() && (#[trigger] individuals@[k]).fitness_spec() > 0);
        }
        let ga = GeneticAlgorithm::new(
            RouletteWheelSelection::new(),
            UniformCrossover::new(),
            SkewMutation::new(self.config.ga_mut_chance, self.config.ga_mut_coeff),
        );
        let bred = ga.evolve(rng, &individuals);
        let mut offspring = bred.0;
        let ghost md = ga.mutation_method.max_delta();
        proof {
            lemma_flat_len(pre[0].brain.nn, topology_spec(self.config));
            assert(0 <= md <= self.config.ga_mut_coeff as int);
        }
        let mut animals: Vec<Animal> = Vec::new();
        let ghost glen = offspring@.len();
        while offspring.len() > 0
            invariant
                animals@.len() + offspring@.len() == glen,
                self.config == old(self).config,
                self.age == 0,
                self.generation as int == old(self).generation as int + 1,
                self.world.foods@ == old(self).world.foods@,
                glen == self.world.animals@.len(),
                glen == self.config.world_animals,
                self.world.animals@ == pre,
                self.config.valid(),
                md <= self.config.ga_mut_coeff as int,
                alen == individuals@.len(),
                pre.len() == alen,
                forall|k: int|
                    0 <= k < alen ==> (#[trigger] individuals@[k]).chromosome@ == pre[k
                        as int].brain.nn.flat(),
                forall|k: int|
                    0 <= k < offspring@.len() ==> (#[trigger] offspring@[k]).has_genome()
                        && genes_bounded(offspring@[k].genome()) && offspring@[k].genome().len()
                        == req_weights(topology_spec(self.config), 0),
                forall|k: int|
                    0 <= k < offspring@.len() ==> has_parents(
                        md,
                        individuals@,
                        (#[trigger] offspring@[k]).genome(),
                    ),
                forall|k: int|
                    0 <= k < animals@.len() ==> (#[trigger] animals@[k]).wf(self.config)
                        && animals@[k].satiation == 0 && animals@[k].speed
                        == self.config.sim_speed_max && (forall|c: int|
                        0 <= c < animals@[k].vision@.len() ==> #[trigger] animals@[k].vision@[c]
                            == 0),
                forall|k: int|
                    0 <= k < animals@.len() ==> offspring_of(
                        self.config,
                        pre,
                        (#[trigger] animals@[k]).brain.nn.flat(),
                    ),
            decreases offspring.len(),
        {
            let ghost pre_off = offspring@;
            let ind = offspring.remove(0);
            proof {
                assert forall|k: int| 0 <= k < offspring@.len() implies (
                #[trigger] offspring@[k]).has_genome() && genes_bounded(offspring@[k].genome())
                    && offspring@[k].genome().len() == req_weights(
                    topology_spec(self.config),
                    0,
                ) && has_parents(md, individuals@, offspring@[k].genome()) by {
                    assert(offspring@[k] == pre_off[k + 1]);
                    assert(has_parents(md, individuals@, pre_off[k + 1].genome()));
                }
            }
            let a = ind.into_animal(&self.config, rng);
            animals.push(a);
            proof {
                assert(a.brain.nn.flat() == ind.genome());
                assert(has_parents(md, individuals@, ind.genome()));
                let (pa, pb) = choose|pa: int, pb: int|
                    0 <= pa < individuals@.len() && 0 <= pb < individuals@.len() && bred_from(
                        md,
                        (#[trigger] individuals@[pa]).genome(),
                        (#[trigger] individuals@[pb]).genome(),
                        ind.genome(),
                    );
                assert(individuals@[pa].genome() == pre[pa].brain.nn.flat());
                assert(individuals@[pb].genome() == pre[pb].brain.nn.flat());
                let coeff = self.config.ga_mut_coeff as int;
                assert(bred_from(coeff, pre[pa].brain.nn.flat(), pre[pb].brain.nn.flat(), ind.genome()))
                    by {
                    assert forall|g: int|
                        0 <= g < ind.genome().len() implies (-coeff <= #[trigger] ind.genome()[g]
                            - pre[pa].brain.nn.flat()[g] <= coeff) || (-coeff <= ind.genome()[g]
                            - pre[pb].brain.nn.flat()[g] <= coeff) by {
                        assert((-md <= ind.genome()[g] - individuals@[pa].genome()[g] <= md) || (-md
                            <= ind.genome()[g] - individuals@[pb].genome()[g] <= md));
                    }
                }
                assert(offspring_of(self.config, pre, a.brain.nn.flat()));
            }
        }
        self.world.animals = animals;
        let flen = self.world.foods.len();
        let mut j: usize = 0;
        while j < flen
            invariant
                j <= flen,
                self.config == old(self).config,
                self.age == 0,
                self.generation as int == old(self).generation as int + 1,
                self.config.valid(),
                flen == self.world.foods@.len(),
                flen == self.config.world_foods,
                self.world.animals@.len() == self.config.world_animals,
                forall|k: int|
                    0 <= k < self.world.animals@.len() ==> (#[trigger] self.world.animals@[k]).wf(self.config)
                        && self.world.animals@[k].satiation == 0 && self.world.animals@[k].speed
                        == self.config.sim_speed_max && (forall|c: int|
                        0 <= c < self.world.animals@[k].vision@.len()
                            ==> #[trigger] self.world.animals@[k].vision@[c] == 0),
                forall|k: int|
                    0 <= k < self.world.animals@.len() ==> offspring_of(
                        self.config,
                        pre,
                        (#[trigger] self.world.animals@[k]).brain.nn.flat(),
                    ),
                forall|k: int|
                    0 <= k < self.world.foods@.len() ==> (#[trigger] self.world.foods@[k]).valid(),
            decreases flen - j,
        {
            let nf = Food::random(rng);
            self.world.foods.set(j, nf);
            j = j + 1;
        }
        Statistics { generation: self.generation - 1, ga: stats }
    }

    /// Advance the world one tick: feeding, perception and decision,
    /// movement, and — exactly when the tick counter reaches the configured
    /// generation length — one evolution step.
    ///
    /// On an ordinary tick no animal is replaced, no satiation shrinks or
    /// grows by more than the food count, and some post-feeding food table
    /// relates every animal to its predecessor by the tick laws. On a
    /// boundary tick the summary carries the statistics of the harvested
    /// fitnesses, every new animal is bred from two old ones and starts the
    /// next generation fresh.
    ///
    /// A boundary at which every harvested fitness is zero breeds the next
    /// generation uniformly instead of aborting; the summary still reports
    /// the true all-zero statistics (see the crate-level documentation).
    #[verifier::rlimit(60)]
    pub fn step(&mut self, rng: &mut rand::rngs::StdRng) -> (r: Option<Statistics>)
        requires
            old(self).wf(),
            old(self).generation < usize::MAX,
        ensures
            final(self).wf(),
            final(self).config == old(self).config,
            r is Some <==> old(self).age + 1 == old(self).config.sim_generation_length,
            final(self).age == if old(self).age + 1 == old(self).config.sim_generation_length {
                0int
            } else {
                old(self).age + 1
            },
            final(self).generation == old(self).generation + if old(self).age + 1 == old(self).config.sim_generation_length {
                1int
            } else {
                0int
            },
            r is None ==> final(self).world.animals@.len() == old(self).world.animals@.len()
                && forall|i: int|
                0 <= i < final(self).world.animals@.len() ==> old(self).world.animals@[i].satiation
                    <= (#[trigger] final(self).world.animals@[i]).satiation && final(self).world.animals@[i].satiation as int <= old(self).world.animals@[i].satiation as int
                    + old(self).config.world_foods as int,
            r is None ==> exists|foods: Seq<Food>|
                tick_transition(
                    old(self).config,
                    foods,
                    old(self).world.animals@,
                    final(self).world.animals@,
                ),
            r is Some ==> r->Some_0.generation == old(self).generation,
            r is Some ==> forall|i: int|
                0 <= i < final(self).world.animals@.len() ==> (#[trigger] final(self).world.animals@[i]).satiation == 0
                    && final(self).world.animals@[i].speed == old(self).config.sim_speed_max && (
                forall|c: int|
                    0 <= c < final(self).world.animals@[i].vision@.len()
                        ==> #[trigger] final(self).world.animals@[i].vision@[c] == 0),
            r is Some ==> forall|k: int|
                0 <= k < final(self).world.animals@.len() ==> offspring_of(
                    old(self).config,
                    old(self).world.animals@,
                    (#[trigger] final(self).world.animals@[k]).brain.nn.flat(),
                ),
            r is Some ==> exists|ws: Seq<Animal>|
                boundary_harvest(old(self).config, old(self).world.animals@, ws)
                    && r->Some_0.ga.describes(harvest_fits(old(self).config, ws)),
    {
        proof {
            assert forall|i: int| 0 <= i < self.world.animals@.len() implies (
            #[trigger] self.world.animals@[i]).satiation as int + (self.config.world_foods as int)
                <= u64::MAX as int by {
                assert(self.world.animals@[i].satiation as int <= (self.age as int) * (
                self.config.world_foods as int));
                assert((self.age as int) * (self.config.world_foods as int) + (
                self.config.world_foods as int) == (self.age as int + 1) * (
                self.config.world_foods as int)) by (nonlinear_arith);
                assert((self.age as int + 1) * (self.config.world_foods as int) <= (
                self.config.sim_generation_length as int) * (self.config.world_foods as int))
                    by (nonlinear_arith)
                    requires
                        self.age as int + 1 <= self.config.sim_generation_length as int,
                        self.config.world_foods as int >= 0,
                ;
            }
        }
        let ghost entry = *old(self);
        let ghost cfg = old(self).config;
        let ghost w0 = old(self).world.animals@;
        self.process_collisions(rng);
        let ghost w1 = self.world.animals@;
        let ghost foods1 = self.world.foods@;
        self.process_brains();
        let ghost w2 = self.world.animals@;
        self.process_movements();
        let ghost w3 = self.world.animals@;
        proof {
            assert forall|i: int| 0 <= i < w0.len() implies tick_rel(
                cfg,
                foods1,
                w0[i],
                #[trigger] w3[i],
            ) by {
                assert(w1[i] == (Animal { satiation: w1[i].satiation, ..w0[i] }));
                assert(brain_step_rel(cfg, foods1, w1[i], w2[i]));
                assert(movement_rel(w2[i], w3[i]));
                assert(w3[i].vision@ == w2[i].vision@);
                assert(w3[i].speed == w2[i].speed);
                assert(w3[i].rotation == w2[i].rotation);
                assert(w3[i].satiation == w2[i].satiation);
                assert(w3[i].brain == w2[i].brain);
                assert(brain_deltas(w0[i].brain, w3[i].vision@) == brain_deltas(
                    w1[i].brain,
                    w2[i].vision@,
                ));
            }
            assert(tick_transition(cfg, foods1, w0, w3));
            assert(boundary_harvest(cfg, w0, w1));
            assert forall|i: int| 0 <= i < w3.len() implies (#[trigger] w3[i]).satiation as int <= (
            self.age as int + 1) * (self.config.world_foods as int) by {
                assert(w3[i].satiation as int <= w0[i].satiation as int
                    + self.config.world_foods as int);
                assert((self.age as int) * (self.config.world_foods as int) + (
                self.config.world_foods as int) == (self.age as int + 1) * (
                self.config.world_foods as int)) by (nonlinear_arith);
            }
        }
        self.age = self.age + 1;
        if self.age == self.config.sim_generation_length {
            let st = self.evolve(rng);
            proof {
                assert forall|i: int| 0 <= i < w3.len() implies (#[trigger] w3[i]).satiation
                    == w1[i].satiation by {
                    assert(brain_step_rel(cfg, foods1, w1[i], w2[i]));
                    assert(movement_rel(w2[i], w3[i]));
                }
                lemma_harvest_congruent(cfg, w3, w1);
                assert(st.ga.describes(harvest_fits(cfg, w1)));
                assert(exists|ws: Seq<Animal>|
                    boundary_harvest(cfg, w0, ws) && st.ga.describes(harvest_fits(cfg, ws)));
                assert forall|k: int| 0 <= k < self.world.animals@.len() implies offspring_of(
                    cfg,
                    w0,
                    (#[trigger] self.world.animals@[k]).brain.nn.flat(),
                ) by {
                    assert(offspring_of(cfg, w3, self.world.animals@[k].brain.nn.flat()));
                    let g = self.world.animals@[k].brain.nn.flat();
                    let (pa, pb) = choose|pa: int, pb: int|
                        0 <= pa < w3.len() && 0 <= pb < w3.len() && bred_from(
                            cfg.ga_mut_coeff as int,
                            (#[trigger] w3[pa]).brain.nn.flat(),
                            (#[trigger] w3[pb]).brain.nn.flat(),
                            g,
                        );
                    assert(w3[pa].brain == w2[pa].brain && w2[pa].brain == w1[pa].brain
                        && w1[pa].brain == w0[pa].brain);
                    assert(w3[pb].brain == w2[pb].brain && w2[pb].brain == w1[pb].brain
                        && w1[pb].brain == w0[pb].brain);
                    assert(bred_from(
                        cfg.ga_mut_coeff as int,
                        w0[pa].brain.nn.flat(),
                        w0[pb].brain.nn.flat(),
                        g,
                    ));
                }
            }
            Some(st)
        } else {
            None
        }
    }

    /// Run ticks until the next generation boundary and hand back its
    /// summary; afterwards the tick counter is back at zero and the
    /// generation counter has grown by exactly one.
    pub fn train(&mut self, rng: &mut rand::rngs::StdRng) -> (st: Statistics)
        requires
            old(self).wf(),
            old(self).generation < usize::MAX,
        ensures
            final(self).wf(),
            final(self).config == old(self).config,
            final(self).age == 0,
            final(self).generation == old(self).generation + 1,
            st.generation == old(self).generation,
            exists|ws: Seq<Animal>|
                ws.len() == old(self).config.world_animals && st.ga.describes(
                    harvest_fits(old(self).config, ws),
                ),
    {
        loop
            invariant
                self.wf(),
                self.config == old(self).config,
                self.generation == old(self).generation,
                self.generation < usize::MAX,
            decreases self.config.sim_generation_length - self.age,
        {
            let ghost pre_tick = self.world.animals@;
            let r = self.step(rng);
            match r {
                Option::Some(st) => {
                    proof {
                        let ws = choose|ws: Seq<Animal>|
                            boundary_harvest(self.config, pre_tick, ws) && st.ga.describes(
                                harvest_fits(self.config, ws),
                            );
                        assert(ws.len() == old(self).config.world_animals);
                        assert(exists|ws2: Seq<Animal>|
                            ws2.len() == old(self).config.world_animals && st.ga.describes(
                                harvest_fits(old(self).config, ws2),
                            ));
                    }
                    return st;
                },
                Option::None => {
                },
            }
        }
    }
}

} // verus!
