//! The brain: a three-layer network sized from the configuration, turning
//! one eye reading into a speed change and a steering change.

use vstd::prelude::*;

use crate::chromosome::{genes_bounded, Chromosome};
use crate::config::Config;
use crate::fx::{clamp_spec, copy_scalars, fx_clamp, FX_MAX, HALF_SCALE, SCALE};
use crate::network::{req_weights, Network};

verus! {

/// The layer sizes a brain derives from the configuration: eye cells in,
/// hidden neurons, two output channels.
pub open spec fn topology_spec(cfg: Config) -> Seq<usize> {
    seq![cfg.eye_cells, cfg.brain_neurons, 2usize]
}

/// What a brain decides on one vision reading: both outputs are clamped
/// into one unit and recentred; their sum steers speed, their difference
/// steers rotation, each clamped to the configured bound.
pub open spec fn brain_deltas(b: Brain, vision: Seq<i64>) -> (int, int) {
    let out = b.nn.eval(vision);
    let r0 = clamp_spec(out[0] as int, 0, SCALE as int) - HALF_SCALE as int;
    let r1 = clamp_spec(out[1] as int, 0, SCALE as int) - HALF_SCALE as int;
    (
        clamp_spec(r0 + r1, -(b.speed_accel as int), b.speed_accel as int),
        clamp_spec(r0 - r1, -(b.rotation_accel as int), b.rotation_accel as int),
    )
}

/// A brain: the owned network plus the two steering bounds it was built
/// with. Stateless between ticks beyond the network's weights.
#[derive(Clone, Debug)]
pub struct Brain {
    pub speed_accel: i64,
    pub rotation_accel: i64,
    pub nn: Network,
}

impl Brain {
    /// Whether the brain matches the configuration's topology and bounds.
    pub open spec fn wf(&self, cfg: Config) -> bool {
        &&& self.nn.wf()
        &&& self.nn.topology_spec().len() == 3
        &&& self.nn.topology_spec()[0] == cfg.eye_cells
        &&& self.nn.topology_spec()[1] == cfg.brain_neurons
        &&& self.nn.topology_spec()[2] == 2
        &&& self.speed_accel == cfg.sim_speed_accel
        &&& self.rotation_accel == cfg.sim_rotation_accel
    }

    /// The configured layer sizes, as a vector.
    pub fn topology(config: &Config) -> (t: Vec<usize>)
        ensures
            t@ == topology_spec(*config),
    {
        let mut t: Vec<usize> = Vec::new();
        t.push(config.eye_cells);
        t.push(config.brain_neurons);
        t.push(2);
        proof {
            assert(t@ =~= topology_spec(*config));
        }
        t
    }

    /// A brain with freshly drawn random weights.
    pub fn random(config: &Config, rng: &mut rand::rngs::StdRng) -> (b: Brain)
        requires
            config.valid(),
        ensures
            b.wf(*config),
    {
        let topology = Self::topology(config);
        let nn = Network::random(rng, &topology);
        Brain { speed_accel: config.sim_speed_accel, rotation_accel: config.sim_rotation_accel, nn }
    }

    /// Rebuild a brain from a genome of exactly the demanded length; the
    /// resulting network flattens back to that genome.
    pub fn from_chromosome(config: &Config, chromosome: &Chromosome) -> (b: Brain)
        requires
            config.valid(),
            chromosome@.len() == req_weights(topology_spec(*config), 0),
            genes_bounded(chromosome@),
        ensures
            b.wf(*config),
            b.nn.flat() == chromosome@,
    {
        let topology = Self::topology(config);
        let nn = Network::from_weights(&topology, chromosome.genes());
        Brain { speed_accel: config.sim_speed_accel, rotation_accel: config.sim_rotation_accel, nn }
    }

    /// Flatten the brain's weights into a genome.
    pub fn as_chromosome(&self) -> (c: Chromosome)
        ensures
            c@ == self.nn.flat(),
    {
        Chromosome::from_genes(self.nn.weights())
    }

    /// Decide one tick: read the vision vector through the network and
    /// derive the two clamped steering deltas. The rotation delta always
    /// stays within one unit, whatever the configured bound.
    pub fn propagate(&self, vision: &Vec<i64>, cfg: &Config) -> (r: (i64, i64))
        requires
            self.wf(*cfg),
            cfg.valid(),
            vision@.len() == cfg.eye_cells,
            genes_bounded(vision@),
        ensures
            (r.0 as int, r.1 as int) == brain_deltas(*self, vision@),
            -SCALE <= r.0 <= SCALE,
            -SCALE <= r.1 <= SCALE,
            -cfg.sim_speed_accel <= r.0 <= cfg.sim_speed_accel,
            -cfg.sim_rotation_accel <= r.1 <= cfg.sim_rotation_accel,
    {
        proof {
            assert(self.nn.input_arity() == self.nn.topology_spec()[0]);
            assert(self.nn.output_count() == self.nn.topology_spec()[2]);
        }
        let out = self.nn.propagate(copy_scalars(vision));
        let r0 = fx_clamp(out[0], 0, SCALE) - HALF_SCALE;
        let r1 = fx_clamp(out[1], 0, SCALE) - HALF_SCALE;
        let speed = fx_clamp_window(r0 + r1, self.speed_accel);
        let rotation = fx_clamp_window(r0 - r1, self.rotation_accel);
        (speed, rotation)
    }
}

/// Clamp a value into the symmetric window `[-bound, bound]`; a value that
/// already lies within one unit never leaves one unit.
fn fx_clamp_window(v: i64, bound: i64) -> (r: i64)
    requires
        0 <= bound <= FX_MAX,
        -SCALE <= v <= SCALE,
    ensures
        r as int == clamp_spec(v as int, -(bound as int), bound as int),
        -SCALE <= r <= SCALE,
{
    if v < -bound {
        -bound
    } else if v > bound {
        bound
    } else {
        v
    }
}

} // verus!
