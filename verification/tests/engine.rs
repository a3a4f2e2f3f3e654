//! Tests of the world-level engine: fixed-point arithmetic, geometry, the
//! eye, and the simulation stepping loop with its generation boundary.

use evosim::config::Config;
use evosim::eye::Eye;
use evosim::food::Food;
use evosim::fx::{fx_add, fx_clamp, fx_mul};
use evosim::simulation::Simulation;
use evosim::trig::{atan2_turns, cos_turns, isqrt, sin_turns, wrap_once};

use rand::SeedableRng;

fn rng(seed: u64) -> rand::rngs::StdRng {
    rand::rngs::StdRng::seed_from_u64(seed)
}

// One unit in fixed-point millionths; also the world width and one full
// turn of angle.
const UNIT: i64 = 1_000_000;

fn small_config() -> Config {
    let mut config = Config::default();
    config.world_animals = 5;
    config.world_foods = 8;
    config.sim_generation_length = 3;
    config
}

#[test]
fn default_config_values() {
    let config = Config::default();
    assert_eq!(config.brain_neurons, 9);
    assert_eq!(config.eye_cells, 9);
    assert_eq!(config.eye_fov_range, 250_000);
    assert_eq!(config.eye_fov_angle, 625_000);
    assert_eq!(config.food_size, 10_000);
    assert_eq!(config.sim_generation_length, 2500);
    assert_eq!(config.world_animals, 40);
    assert_eq!(config.world_foods, 60);
}

#[test]
fn fixed_point_arithmetic() {
    // 2.0 * 0.5 == 1.0
    assert_eq!(fx_mul(2_000_000, 500_000), 1_000_000);
    // -1.5 * 0.4 == -0.6
    assert_eq!(fx_mul(-1_500_000, 400_000), -600_000);
    // Saturation at the domain bound.
    assert_eq!(
        fx_add(1_000_000_000_000, 1_000_000_000_000),
        1_000_000_000_000
    );
    assert_eq!(fx_clamp(7, 10, 20), 10);
    assert_eq!(fx_clamp(25, 10, 20), 20);
    assert_eq!(fx_clamp(15, 10, 20), 15);
}

#[test]
fn integer_square_root() {
    assert_eq!(isqrt(0), 0);
    assert_eq!(isqrt(1), 1);
    assert_eq!(isqrt(3), 1);
    assert_eq!(isqrt(4), 2);
    assert_eq!(isqrt(1_000_000), 1_000);
    assert_eq!(isqrt(999_999), 999);
    assert_eq!(isqrt(u64::MAX), 4_294_967_295);
}

#[test]
fn sine_and_cosine() {
    // Quarter-turn landmarks of the rational approximation are exact.
    assert_eq!(sin_turns(0), 0);
    assert_eq!(sin_turns(250_000), UNIT);
    assert_eq!(sin_turns(500_000), 0);
    assert_eq!(sin_turns(750_000), -UNIT);
    assert_eq!(cos_turns(0), UNIT);
    assert_eq!(cos_turns(250_000), 0);
    assert_eq!(cos_turns(500_000), -UNIT);
    // Everything stays within one unit.
    for a in (0..UNIT).step_by(37_001) {
        assert!(sin_turns(a).abs() <= UNIT);
        assert!(cos_turns(a).abs() <= UNIT);
    }
}

#[test]
fn arc_tangent_octants() {
    assert_eq!(atan2_turns(0, 100_000), 0);
    assert_eq!(atan2_turns(100_000, 100_000), 125_000);
    assert_eq!(atan2_turns(100_000, 0), 250_000);
    assert_eq!(atan2_turns(0, -100_000), 500_000);
    assert_eq!(atan2_turns(-100_000, 0), 750_000);
    assert_eq!(atan2_turns(0, 0), 0);
    for &dy in &[-900_000i64, -1, 0, 1, 350_000] {
        for &dx in &[-800_000i64, -1, 0, 1, 440_000] {
            let a = atan2_turns(dy, dx);
            assert!(0 <= a && a < UNIT);
        }
    }
}

#[test]
fn toroidal_wrap() {
    // A coordinate that would leave [0, 1) wraps around (P-style scenario:
    // past one wraps to just above zero, below zero to just under one).
    assert_eq!(wrap_once(UNIT, UNIT), 0);
    assert_eq!(wrap_once(UNIT + 5, UNIT), 5);
    assert_eq!(wrap_once(-1, UNIT), UNIT - 1);
    assert_eq!(wrap_once(0, UNIT), 0);
    assert_eq!(wrap_once(UNIT - 1, UNIT), UNIT - 1);
}

#[test]
fn eye_sees_nothing_far_away() {
    let config = Config::default();
    let mut eye = Eye::new(&config);
    // One food, further away than the sensing range.
    let foods = vec![Food { x: 900_000, y: 900_000 }];
    eye.step(&config, &foods, 100_000, 100_000, 0);
    for &e in eye.energies() {
        assert_eq!(e, 0);
    }
}

#[test]
fn eye_normalizes_to_full_scale() {
    let config = Config::default();
    let mut eye = Eye::new(&config);
    // Food straight ahead, close by: the eye's convention turns the heading
    // a quarter turn, so heading 0 looks towards positive y.
    let foods = vec![Food { x: 500_000, y: 600_000 }];
    eye.step(&config, &foods, 500_000, 500_000, 0);
    let max = eye.energies().iter().max().copied().unwrap();
    assert_eq!(max, UNIT as u64);
    for &e in eye.energies() {
        assert!(e <= UNIT as u64);
    }
}

#[test]
fn generation_boundary() {
    // P-scenario: a summary comes exactly when the tick counter reaches the
    // generation length; then the counter resets and the generation index
    // grows by one.
    let config = small_config();
    let mut rng = rng(99);
    let mut sim = Simulation::random(config, &mut rng);
    assert_eq!(sim.age(), 0);
    assert_eq!(sim.generation(), 0);

    assert!(sim.step(&mut rng).is_none());
    assert_eq!(sim.age(), 1);
    assert!(sim.step(&mut rng).is_none());
    assert_eq!(sim.age(), 2);
    let summary = sim.step(&mut rng);
    assert!(summary.is_some());
    assert_eq!(summary.unwrap().generation, 0);
    assert_eq!(sim.age(), 0);
    assert_eq!(sim.generation(), 1);
}

#[test]
fn positions_stay_in_the_world() {
    let config = small_config();
    let mut rng = rng(4);
    let mut sim = Simulation::random(config, &mut rng);
    for _ in 0..7 {
        sim.step(&mut rng);
        for animal in sim.world().animals() {
            let (x, y) = animal.position();
            assert!(0 <= x && x < UNIT);
            assert!(0 <= y && y < UNIT);
            let r = animal.rotation();
            assert!(0 <= r && r < UNIT);
        }
    }
}

#[test]
fn satiation_never_decreases_within_a_generation() {
    let mut config = small_config();
    config.sim_generation_length = 50;
    config.food_size = 80_000;
    let mut rng = rng(12);
    let mut sim = Simulation::random(config, &mut rng);

    let mut last: Vec<u64> = sim.world().animals().iter().map(|a| a.satiation).collect();
    for _ in 0..49 {
        let out = sim.step(&mut rng);
        assert!(out.is_none());
        let now: Vec<u64> = sim.world().animals().iter().map(|a| a.satiation).collect();
        for (before, after) in last.iter().zip(now.iter()) {
            assert!(after >= before);
            // One tick feeds an animal at most once per food item.
            assert!(*after <= *before + 8);
        }
        last = now;
    }
    // The boundary replaces the population and resets every counter.
    let out = sim.step(&mut rng);
    assert!(out.is_some());
    for animal in sim.world().animals() {
        assert_eq!(animal.satiation, 0);
    }
}

#[test]
fn train_runs_one_full_generation() {
    let config = small_config();
    let mut rng = rng(31);
    let mut sim = Simulation::random(config, &mut rng);
    let stats = sim.train(&mut rng);
    assert_eq!(stats.generation, 0);
    assert_eq!(sim.age(), 0);
    assert_eq!(sim.generation(), 1);
    let stats = sim.train(&mut rng);
    assert_eq!(stats.generation, 1);
    assert_eq!(sim.generation(), 2);

    // The population statistics respect their ordering laws.
    assert!(stats.ga.min_fitness() <= stats.ga.avg_fitness());
    assert!(stats.ga.avg_fitness() <= stats.ga.max_fitness());
    assert!(stats.ga.min_fitness() <= stats.ga.median_fitness());
    assert!(stats.ga.median_fitness() <= stats.ga.max_fitness());
}

#[test]
fn random_placement_is_spread_out() {
    let mut r = rng(8);
    let mut xs = Vec::new();
    for _ in 0..20 {
        let food = Food::random(&mut r);
        let (x, y) = food.position();
        assert!(0 <= x && x < UNIT);
        assert!(0 <= y && y < UNIT);
        xs.push((x, y));
    }
    // The draws actually sample the range rather than echoing a bound.
    assert!(xs.iter().any(|&p| p != xs[0]));
    assert!(xs.iter().any(|&(x, _)| x > 0));
}

#[test]
fn world_has_configured_counts() {
    let config = small_config();
    let mut rng = rng(2);
    let sim = Simulation::random(config, &mut rng);
    assert_eq!(sim.world().animals().len(), 5);
    assert_eq!(sim.world().foods().len(), 8);
    for food in sim.world().foods() {
        let (x, y) = food.position();
        assert!(0 <= x && x < UNIT);
        assert!(0 <= y && y < UNIT);
    }
    assert_eq!(sim.config().world_animals, 5);
}
