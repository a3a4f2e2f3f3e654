//! An animal: pose and speed in the toroidal world, an eye, a brain, and
//! the satiation counter that doubles as its fitness.

use vstd::prelude::*;

use crate::brain::{brain_deltas, topology_spec, Brain};
use crate::chromosome::{genes_bounded, Chromosome};
use crate::config::{Config, MAX_FOODS};
use crate::eye::{eye_energies, Eye};
use crate::food::Food;
use crate::fx::{
    clamp_spec, fx_clamp, fx_mul, fx_mul_spec, lemma_fx_mul_small, tdiv, FX_MAX, SCALE,
};
use crate::network::req_weights;
use crate::rng::gen_range_i64;
use crate::trig::{cos_spec, cos_turns, sin_spec, sin_turns, wrap_once, wrap_spec, TURN};

verus! {

/// Turn units in one fixed-point radian: `TURN / (2 * pi)`, rounded.
pub const RAD_TO_TURN: i64 = 159_155;

/// The perception-and-decision pass as a relation between an animal before
/// and after it: the pose and satiation stand still, the vision becomes the
/// eye reading of `foods` from the old pose, and the brain's two deltas
/// steer the clamped speed and the wrapped heading.
pub open spec fn brain_step_rel(cfg: Config, foods: Seq<Food>, pre: Animal, post: Animal) -> bool {
    &&& post.x == pre.x
    &&& post.y == pre.y
    &&& post.satiation == pre.satiation
    &&& post.brain == pre.brain
    &&& post.vision@.len() == cfg.eye_cells
    &&& (forall|c: int|
        0 <= c < cfg.eye_cells ==> #[trigger] post.vision@[c] as int == eye_energies(
            cfg,
            pre.x as int,
            pre.y as int,
            pre.rotation as int,
            foods,
        )[c])
    &&& ({
        let deltas = brain_deltas(pre.brain, post.vision@);
        &&& post.speed as int == clamp_spec(
            pre.speed + deltas.0,
            cfg.sim_speed_min as int,
            cfg.sim_speed_max as int,
        )
        &&& post.rotation as int == wrap_spec(
            pre.rotation + fx_mul_spec(deltas.1 as i64, RAD_TO_TURN),
            TURN as int,
        )
    })
}

/// The movement pass as a relation: only the position moves, one speed step
/// along the heading, wrapped back into the world square.
pub open spec fn movement_rel(pre: Animal, post: Animal) -> bool {
    post == (Animal {
        x: wrap_spec(
            pre.x - fx_mul_spec(pre.speed, sin_spec(pre.rotation as int) as i64),
            SCALE as int,
        ) as i64,
        y: wrap_spec(
            pre.y + fx_mul_spec(pre.speed, cos_spec(pre.rotation as int) as i64),
            SCALE as int,
        ) as i64,
        ..pre
    })
}

/// One organism.
#[derive(Clone, Debug)]
pub struct Animal {
    pub x: i64,
    pub y: i64,
    pub rotation: i64,
    pub vision: Vec<i64>,
    pub speed: i64,
    pub eye: Eye,
    pub brain: Brain,
    pub satiation: u64,
}

impl Animal {
    /// Shape invariants: pose inside the world, speed inside the configured
    /// band, vision and eye sized to the cell count, brain topology matching
    /// the configuration.
    pub open spec fn wf(&self, cfg: Config) -> bool {
        &&& 0 <= self.x < SCALE
        &&& 0 <= self.y < SCALE
        &&& 0 <= self.rotation < TURN
        &&& cfg.sim_speed_min <= self.speed <= cfg.sim_speed_max
        &&& self.vision@.len() == cfg.eye_cells
        &&& forall|i: int| 0 <= i < self.vision@.len() ==> 0 <= #[trigger] self.vision@[i] <= SCALE
        &&& self.eye.energies@.len() == cfg.eye_cells
        &&& self.brain.wf(cfg)
    }

    /// Position in millionths of the world width.
    pub fn position(&self) -> (p: (i64, i64))
        ensures
            p.0 == self.x,
            p.1 == self.y,
    {
        (self.x, self.y)
    }

    /// Heading in turn units.
    pub fn rotation(&self) -> (r: i64)
        ensures
            r == self.rotation,
    {
        self.rotation
    }

    /// The eye reading of the last tick, in millionths.
    pub fn vision(&self) -> (v: &Vec<i64>)
        ensures
            v@ == self.vision@,
    {
        &self.vision
    }

    /// An animal with a freshly drawn random brain and pose: satiation
    /// zero, speed at the configured maximum, vision blank.
    pub fn random(config: &Config, rng: &mut rand::rngs::StdRng) -> (a: Animal)
        requires
            config.valid(),
        ensures
            a.wf(*config),
            a.satiation == 0,
            a.speed == config.sim_speed_max,
            forall|i: int| 0 <= i < a.vision@.len() ==> #[trigger] a.vision@[i] == 0,
    {
        let brain = Brain::random(config, rng);
        Self::new(config, rng, brain)
    }

    /// An animal whose brain is rebuilt from a genome; the pose is drawn
    /// fresh and the satiation starts at zero.
    pub fn from_chromosome(
        config: &Config,
        rng: &mut rand::rngs::StdRng,
        chromosome: &Chromosome,
    ) -> (a: Animal)
        requires
            config.valid(),
            chromosome@.len() == req_weights(topology_spec(*config), 0),
            genes_bounded(chromosome@),
        ensures
            a.wf(*config),
            a.satiation == 0,
            a.speed == config.sim_speed_max,
            forall|i: int| 0 <= i < a.vision@.len() ==> #[trigger] a.vision@[i] == 0,
            a.brain.nn.flat() == chromosome@,
    {
        let brain = Brain::from_chromosome(config, chromosome);
        Self::new(config, rng, brain)
    }

    /// The animal's genome: its brain's flattened weights.
    pub fn as_chromosome(&self) -> (c: Chromosome)
        ensures
            c@ == self.brain.nn.flat(),
    {
        self.brain.as_chromosome()
    }

    /// Fresh physical state around a given brain: a random pose, the
    /// configured maximum speed, a blank vision, a satiation of zero.
    fn new(config: &Config, rng: &mut rand::rngs::StdRng, brain: Brain) -> (a: Animal)
        requires
            config.valid(),
            brain.wf(*config),
        ensures
            a.wf(*config),
            a.satiation == 0,
            a.speed == config.sim_speed_max,
            forall|i: int| 0 <= i < a.vision@.len() ==> #[trigger] a.vision@[i] == 0,
            a.brain == brain,
    {
        let x = gen_range_i64(rng, 0, SCALE);
        let y = gen_range_i64(rng, 0, SCALE);
        let rotation = gen_range_i64(rng, 0, TURN);
        let mut vision: Vec<i64> = Vec::new();
        let mut i: usize = 0;
        while i < config.eye_cells
            invariant
                i <= config.eye_cells,
                vision@.len() == i,
                forall|k: int| 0 <= k < i ==> #[trigger] vision@[k] == 0,
            decreases config.eye_cells - i,
        {
            vision.push(0);
            i = i + 1;
        }
        let eye = Eye::new(config);
        Animal { x, y, rotation, vision, speed: config.sim_speed_max, eye, brain, satiation: 0 }
    }

    /// One perception-and-decision pass: recompute the eye against the
    /// current foods, feed the reading to the brain, and apply the two
    /// steering deltas, clamping speed into its band and wrapping the
    /// heading around the circle. Position and satiation do not move here.
    pub fn process_brain(&mut self, config: &Config, foods: &Vec<Food>)
        requires
            old(self).wf(*config),
            config.valid(),
            foods@.len() <= MAX_FOODS,
            forall|i: int| 0 <= i < foods@.len() ==> (#[trigger] foods@[i]).valid(),
        ensures
            final(self).wf(*config),
            brain_step_rel(*config, foods@, *old(self), *final(self)),
    {
        self.eye.step(config, foods, self.x, self.y, self.rotation);
        let mut vision: Vec<i64> = Vec::new();
        let cells = config.eye_cells;
        let mut i: usize = 0;
        while i < cells
            invariant
                i <= cells,
                cells == config.eye_cells,
                self.eye.energies@.len() == cells,
                forall|c: int| 0 <= c < cells ==> 0 <= #[trigger] self.eye.energies@[c] <= SCALE as u64,
                vision@.len() == i,
                forall|c: int|
                    0 <= c < i ==> #[trigger] vision@[c] as int == self.eye.energies@[c] as int,
                forall|c: int| 0 <= c < i ==> 0 <= #[trigger] vision@[c] <= SCALE,
            decreases cells - i,
        {
            let e = self.eye.energies[i];
            vision.push(e as i64);
            i = i + 1;
        }
        self.vision = vision;
        let deltas = self.brain.propagate(&self.vision, config);
        self.speed = fx_clamp(self.speed + deltas.0, config.sim_speed_min, config.sim_speed_max);
        let turn_delta = fx_mul(deltas.1, RAD_TO_TURN);
        proof {
            lemma_fx_mul_small(deltas.1, RAD_TO_TURN);
        }
        self.rotation = wrap_once(self.rotation + turn_delta, TURN);
    }

    /// One movement pass: advance the position along the heading by the
    /// current speed and wrap both coordinates back into the world square,
    /// so each always lands in `[0, SCALE)`.
    pub fn process_movement(&mut self)
        requires
            0 <= old(self).x < SCALE,
            0 <= old(self).y < SCALE,
            0 <= old(self).rotation < TURN,
            0 <= old(self).speed <= SCALE,
        ensures
            movement_rel(*old(self), *final(self)),
            0 <= final(self).x < SCALE,
            0 <= final(self).y < SCALE,
    {
        let s = sin_turns(self.rotation);
        let c = cos_turns(self.rotation);
        proof {
            lemma_fx_mul_small(self.speed, s);
            lemma_fx_mul_small(self.speed, c);
        }
        let dx = fx_mul(self.speed, s);
        let dy = fx_mul(self.speed, c);
        self.x = wrap_once(self.x - dx, SCALE);
        self.y = wrap_once(self.y + dy, SCALE);
    }
}

} // verus!
