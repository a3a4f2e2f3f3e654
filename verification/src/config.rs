//! Engine configuration, immutable for the lifetime of one simulation.
//!
//! Lengths and probabilities are fixed-point millionths; angles are turn
//! units (see [`crate::trig`]).

use vstd::prelude::*;

use crate::fx::{FX_MAX, SCALE};
use crate::trig::TURN;

verus! {

/// Most foods one world may hold; keeps eye-energy sums far from overflow.
pub const MAX_FOODS: usize = 1_000_000;

/// Most animals one world may hold.
pub const MAX_ANIMALS: usize = 1_000_000;

/// Most photoreceptor cells one eye may have.
pub const MAX_CELLS: usize = 1_000_000;

/// All knobs of the engine. A simulation refuses to start unless
/// [`Config::valid`] holds.
#[derive(Clone, Debug)]
pub struct Config {
    /// Neurons of the brain's hidden layer.
    pub brain_neurons: usize,
    /// How far the eye sees, in millionths of the world width.
    pub eye_fov_range: i64,
    /// The eye's angular field of view, in turn units.
    pub eye_fov_angle: i64,
    /// Number of angular photoreceptor cells.
    pub eye_cells: usize,
    /// Radius below which food is eaten, in millionths of the world width.
    pub food_size: i64,
    /// When non-zero, fitness is reversed: animals are bred for hunger.
    pub ga_reverse: usize,
    /// Per-gene mutation probability, in millionths of certainty.
    pub ga_mut_chance: u64,
    /// Largest mutation magnitude, in millionths.
    pub ga_mut_coeff: i64,
    /// Smallest speed, in millionths of the world width per tick.
    pub sim_speed_min: i64,
    /// Largest speed, in millionths of the world width per tick.
    pub sim_speed_max: i64,
    /// Bound on one tick's speed change, in millionths.
    pub sim_speed_accel: i64,
    /// Bound on one tick's steering change, in millionths of a radian.
    pub sim_rotation_accel: i64,
    /// Ticks in one generation.
    pub sim_generation_length: usize,
    /// Animals per generation.
    pub world_animals: usize,
    /// Food items in the world.
    pub world_foods: usize,
}

impl Config {
    /// The arity invariants a runnable configuration must satisfy.
    pub open spec fn valid(&self) -> bool {
        &&& self.brain_neurons >= 1
        &&& self.eye_cells >= 1
        &&& self.eye_cells <= MAX_CELLS
        &&& self.world_animals >= 1
        &&& self.world_animals <= MAX_ANIMALS
        &&& self.world_foods >= 1
        &&& self.world_foods <= MAX_FOODS
        &&& self.sim_generation_length >= 1
        &&& 0 < self.eye_fov_range <= SCALE
        &&& 0 < self.eye_fov_angle <= TURN
        &&& 0 <= self.food_size <= SCALE
        &&& self.ga_mut_chance <= SCALE as u64
        &&& 0 <= self.ga_mut_coeff <= FX_MAX
        &&& 0 <= self.sim_speed_min <= self.sim_speed_max <= SCALE
        &&& 0 <= self.sim_speed_accel <= FX_MAX
        &&& 0 <= self.sim_rotation_accel <= FX_MAX
        &&& (self.sim_generation_length as int) * (self.world_foods as int) <= u64::MAX as int
    }
}

impl Config {
    /// Executable form of [`Config::valid`]: construction-time validation
    /// for callers outside the verified world.
    pub fn check(&self) -> (b: bool)
        ensures
            b == self.valid(),
    {
        let steps = self.sim_generation_length as u128;
        let foods = self.world_foods as u128;
        proof {
            assert(steps as int * foods as int <= (u64::MAX as int) * (u64::MAX as int))
                by (nonlinear_arith)
                requires
                    0 <= steps as int <= u64::MAX as int,
                    0 <= foods as int <= u64::MAX as int,
            ;
        }
        self.brain_neurons >= 1 && self.eye_cells >= 1 && self.eye_cells <= MAX_CELLS
            && self.world_animals >= 1 && self.world_animals <= MAX_ANIMALS && self.world_foods >= 1
            && self.world_foods <= MAX_FOODS && self.sim_generation_length >= 1
            && 0 < self.eye_fov_range && self.eye_fov_range <= SCALE && 0 < self.eye_fov_angle
            && self.eye_fov_angle <= TURN && 0 <= self.food_size && self.food_size <= SCALE
            && self.ga_mut_chance <= SCALE as u64 && 0 <= self.ga_mut_coeff && self.ga_mut_coeff
            <= FX_MAX && 0 <= self.sim_speed_min && self.sim_speed_min <= self.sim_speed_max
            && self.sim_speed_max <= SCALE && 0 <= self.sim_speed_accel && self.sim_speed_accel
            <= FX_MAX && 0 <= self.sim_rotation_accel && self.sim_rotation_accel <= FX_MAX && steps
            * foods <= u64::MAX as u128
    }
}

impl Default for Config {
    /// The stock configuration: a nine-cell eye watching a quarter of the
    /// world over five eighths of a turn, nine hidden neurons, and a
    /// 2500-tick generation of forty animals and sixty foods.
    fn default() -> (c: Config)
        ensures
            c.valid(),
            c.brain_neurons == 9,
            c.eye_fov_range == 250_000,
            c.eye_fov_angle == 625_000,
            c.eye_cells == 9,
            c.food_size == 10_000,
            c.ga_reverse == 0,
            c.ga_mut_chance == 10_000,
            c.ga_mut_coeff == 300_000,
            c.sim_speed_min == 1_000,
            c.sim_speed_max == 5_000,
            c.sim_speed_accel == 200_000,
            c.sim_rotation_accel == 1_570_796,
            c.sim_generation_length == 2500,
            c.world_animals == 40,
            c.world_foods == 60,
    {
        Config {
            brain_neurons: 9,
            eye_fov_range: 250_000,
            eye_fov_angle: 625_000,
            eye_cells: 9,
            food_size: 10_000,
            ga_reverse: 0,
            ga_mut_chance: 10_000,
            ga_mut_coeff: 300_000,
            sim_speed_min: 1_000,
            sim_speed_max: 5_000,
            sim_speed_accel: 200_000,
            sim_rotation_accel: 1_570_796,
            sim_generation_length: 2500,
            world_animals: 40,
            world_foods: 60,
        }
    }
}

} // verus!
