//! A verified evolution-simulation engine: feed-forward neural networks,
//! a genetic algorithm (selection, crossover, mutation, statistics), and a
//! toroidal foraging world whose animals steer by evolved brains.
//!
//! All quantities are fixed-point numbers — an `i64` or `u64` counting
//! millionths of a unit (see [`fx`]) — so the whole engine is exact integer
//! arithmetic. Angles are measured in turn units (see [`trig`]). The only
//! unverified boundary is the random stream in [`rng`].
//!
//! One behaviour deserves a caller's attention: a generation in which no
//! harvested fitness is positive (no animal ate anything) cannot drive
//! fitness-proportionate selection, which is otherwise a fatal condition.
//! Rather than abort mid-run, the boundary then breeds the next generation
//! uniformly — every animal gets the same selection weight — while the
//! returned statistics still describe the true, all-zero harvest. See
//! [`simulation::Simulation::step`].
//!
//! The layers, bottom to top:
//! - numerics and geometry: [`fx`], [`trig`], [`rng`];
//! - the network: [`neuron`], [`layer`], [`network`];
//! - the genetic algorithm: [`chromosome`], [`individual`], [`selection`],
//!   [`crossover`], [`mutation`], [`statistics`], [`genetic`];
//! - the world: [`config`], [`food`], [`eye`], [`brain`], [`animal`],
//!   [`world`], [`animal_individual`];
//! - the engine: [`simulation`], [`generation_summary`].

pub mod animal;
pub mod animal_individual;
pub mod brain;
pub mod chromosome;
pub mod config;
pub mod crossover;
pub mod eye;
pub mod food;
pub mod fx;
pub mod generation_summary;
pub mod genetic;
pub mod individual;
pub mod layer;
pub mod mutation;
pub mod network;
pub mod neuron;
pub mod rng;
pub mod selection;
pub mod simulation;
pub mod statistics;
pub mod trig;
pub mod world;
