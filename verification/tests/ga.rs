//! Tests of the genetic algorithm: genomes, the three strategies, the
//! population statistics and the whole evolution step.

use evosim::chromosome::Chromosome;
use evosim::crossover::{CrossoverMethod, UniformCrossover};
use evosim::genetic::GeneticAlgorithm;
use evosim::individual::{Individual, TestIndividual};
use evosim::mutation::{MutationMethod, SkewMutation};
use evosim::selection::{RouletteWheelSelection, SelectionMethod};
use evosim::statistics::Statistics;

use rand::SeedableRng;

fn rng(seed: u64) -> rand::rngs::StdRng {
    rand::rngs::StdRng::seed_from_u64(seed)
}

// One unit in fixed-point millionths.
const UNIT: i64 = 1_000_000;

fn chromosome() -> Chromosome {
    Chromosome::from_genes(vec![3, 1, 2])
}

#[test]
fn len() {
    assert_eq!(chromosome().len(), 3);
}

#[test]
fn is_empty() {
    assert!(!chromosome().is_empty());
    assert!(Chromosome::from_genes(Vec::new()).is_empty());
}

#[test]
fn iter() {
    let chromosome = chromosome();
    let genes = chromosome.genes();

    assert_eq!(genes.len(), 3);
    assert_eq!(genes[0], 3);
    assert_eq!(genes[1], 1);
    assert_eq!(genes[2], 2);
}

#[test]
fn iter_mut() {
    let mut chromosome = chromosome();

    for i in 0..chromosome.len() {
        let gene = chromosome.gene(i);
        chromosome.set_gene(i, gene * 10);
    }

    let genes = chromosome.genes();
    assert_eq!(genes.len(), 3);
    assert_eq!(genes[0], 30);
    assert_eq!(genes[1], 10);
    assert_eq!(genes[2], 20);
}

#[test]
fn index() {
    let chromosome = chromosome();

    assert_eq!(chromosome.gene(0), 3);
    assert_eq!(chromosome.gene(1), 1);
    assert_eq!(chromosome.gene(2), 2);
}

#[test]
fn from_iterator() {
    let chromosome = Chromosome::from_genes(chromosome().genes().clone());

    assert_eq!(chromosome.gene(0), 3);
    assert_eq!(chromosome.gene(1), 1);
    assert_eq!(chromosome.gene(2), 2);
}

#[test]
fn uniform_test() {
    let mut rng = rng(17);
    let parent_a = Chromosome::from_genes((0..100).collect());
    let parent_b = Chromosome::from_genes((100..200).collect());

    let child = UniformCrossover::new().crossover(&mut rng, &parent_a, &parent_b);

    // Number of genes taken from each parent; every gene comes from one of
    // the two, and the split is statistically close to 50/50.
    let mut diff_a = 0;
    let mut diff_b = 0;
    for i in 0..child.len() {
        let g = child.gene(i);
        if g != parent_a.gene(i) {
            diff_a += 1;
        }
        if g != parent_b.gene(i) {
            diff_b += 1;
        }
    }
    assert_eq!(diff_a + diff_b, 100);
    assert!(35 <= diff_a && diff_a <= 65);
    assert!(35 <= diff_b && diff_b <= 65);
}

#[test]
fn skew_does_not_change_the_original_genome() {
    // Zero chance, zero coefficient.
    let mut child = Chromosome::from_genes(vec![UNIT, 2 * UNIT, 3 * UNIT, 4 * UNIT, 5 * UNIT]);
    SkewMutation::new(0, 0).mutate(&mut rng(3), &mut child);
    assert_eq!(child.genes(), &vec![UNIT, 2 * UNIT, 3 * UNIT, 4 * UNIT, 5 * UNIT]);
}

#[test]
fn skew_zero_chance_nonzero_coefficient() {
    let mut child = Chromosome::from_genes(vec![UNIT, 2 * UNIT, 3 * UNIT, 4 * UNIT, 5 * UNIT]);
    SkewMutation::new(0, 500_000).mutate(&mut rng(3), &mut child);
    assert_eq!(child.genes(), &vec![UNIT, 2 * UNIT, 3 * UNIT, 4 * UNIT, 5 * UNIT]);
}

#[test]
fn skew_nonzero_chance_zero_coefficient() {
    let mut child = Chromosome::from_genes(vec![UNIT, 2 * UNIT, 3 * UNIT, 4 * UNIT, 5 * UNIT]);
    SkewMutation::new(500_000, 0).mutate(&mut rng(3), &mut child);
    assert_eq!(child.genes(), &vec![UNIT, 2 * UNIT, 3 * UNIT, 4 * UNIT, 5 * UNIT]);
}

#[test]
fn skew_max_chance_zero_coefficient() {
    let mut child = Chromosome::from_genes(vec![UNIT, 2 * UNIT, 3 * UNIT, 4 * UNIT, 5 * UNIT]);
    SkewMutation::new(1_000_000, 0).mutate(&mut rng(3), &mut child);
    assert_eq!(child.genes(), &vec![UNIT, 2 * UNIT, 3 * UNIT, 4 * UNIT, 5 * UNIT]);
}

#[test]
fn slightly_changes_the_original_genome() {
    let original = vec![UNIT, 2 * UNIT, 3 * UNIT, 4 * UNIT, 5 * UNIT];
    let mut child = Chromosome::from_genes(original.clone());
    // Half chance, coefficient one half.
    SkewMutation::new(500_000, 500_000).mutate(&mut rng(3), &mut child);

    let mut changed = 0;
    for i in 0..child.len() {
        let delta = (child.gene(i) - original[i]).abs();
        assert!(delta < 500_000);
        if delta != 0 {
            changed += 1;
        }
    }
    assert!(changed > 0);
    assert!(changed < 5);
}

#[test]
fn entirely_changes_the_original_genome() {
    let original = vec![UNIT, 2 * UNIT, 3 * UNIT, 4 * UNIT, 5 * UNIT];
    let mut child = Chromosome::from_genes(original.clone());
    // Certain chance: every gene is perturbed by less than the coefficient.
    SkewMutation::new(1_000_000, 500_000).mutate(&mut rng(3), &mut child);

    let mut changed = 0;
    for i in 0..child.len() {
        let delta = (child.gene(i) - original[i]).abs();
        assert!(delta < 500_000);
        if delta != 0 {
            changed += 1;
        }
    }
    assert!(changed >= 4);
}

#[test]
fn roulette_wheel_test() {
    let population = vec![
        TestIndividual::new(2),
        TestIndividual::new(1),
        TestIndividual::new(4),
        TestIndividual::new(3),
    ];
    let mut rng = rng(5);
    let method = RouletteWheelSelection::new();

    // fitness value -> how many times an individual of that fitness won.
    let mut histogram = [0usize; 5];
    for _ in 0..1000 {
        let idx = method.select(&mut rng, &population, 4);
        let fitness = population[idx].fitness() as usize;
        histogram[fitness] += 1;
    }

    // Selection frequency grows with fitness (P-proportionate bias).
    assert_eq!(histogram[0], 0);
    assert!(histogram[1] > 0);
    assert!(histogram[1] < histogram[2]);
    assert!(histogram[2] < histogram[3]);
    assert!(histogram[3] < histogram[4]);
    assert_eq!(histogram.iter().sum::<usize>(), 1000);
}

#[test]
fn test_even() {
    let stats = Statistics::new(&vec![
        TestIndividual::new(30),
        TestIndividual::new(10),
        TestIndividual::new(20),
        TestIndividual::new(40),
    ]);

    assert_eq!(stats.min_fitness(), 10);
    assert_eq!(stats.max_fitness(), 40);
    assert_eq!(stats.avg_fitness(), (10 + 20 + 30 + 40) / 4);
    assert_eq!(stats.median_fitness(), (20 + 30) / 2);
    assert_eq!(stats.sum_fitness(), 100);
}

#[test]
fn test_odd() {
    let stats = Statistics::new(&vec![
        TestIndividual::new(30),
        TestIndividual::new(20),
        TestIndividual::new(40),
    ]);

    assert_eq!(stats.min_fitness(), 20);
    assert_eq!(stats.max_fitness(), 40);
    assert_eq!(stats.avg_fitness(), (20 + 30 + 40) / 3);
    assert_eq!(stats.median_fitness(), 30);
    assert_eq!(stats.sum_fitness(), 90);
}

#[test]
fn lib_test() {
    let mut rng = rng(11);

    let ga = GeneticAlgorithm::new(
        RouletteWheelSelection::new(),
        UniformCrossover::new(),
        SkewMutation::new(500_000, 500_000),
    );

    let mut population = vec![
        TestIndividual::create(Chromosome::from_genes(vec![0, 0, 0])),
        TestIndividual::create(Chromosome::from_genes(vec![UNIT, UNIT, UNIT])),
        TestIndividual::create(Chromosome::from_genes(vec![UNIT, 2 * UNIT, UNIT])),
        TestIndividual::create(Chromosome::from_genes(vec![UNIT, 2 * UNIT, 4 * UNIT])),
    ];

    for _ in 0..10 {
        population = ga.evolve(&mut rng, &population).0;
    }

    assert_eq!(population.len(), 4);
    for individual in &population {
        let genome = individual.chromosome();
        assert_eq!(genome.len(), 3);
        // Evolution only recombines and nudges: genes stay within the
        // original span widened by ten mutations of at most one half.
        for i in 0..genome.len() {
            let g = genome.gene(i);
            assert!(-5_000_000 <= g && g <= 9_000_000);
        }
    }
}

#[test]
fn evolve_statistics_are_of_the_input_population() {
    let mut rng = rng(23);
    let ga = GeneticAlgorithm::new(
        RouletteWheelSelection::new(),
        UniformCrossover::new(),
        SkewMutation::new(10_000, 300_000),
    );
    // Fitness of a bare-genome test individual is its gene sum (clamped
    // at zero).
    let population = vec![
        TestIndividual::create(Chromosome::from_genes(vec![10, 0, 0])),
        TestIndividual::create(Chromosome::from_genes(vec![10, 10, 0])),
        TestIndividual::create(Chromosome::from_genes(vec![10, 10, 10])),
        TestIndividual::create(Chromosome::from_genes(vec![20, 10, 10])),
    ];
    let (_, stats) = ga.evolve(&mut rng, &population);
    assert_eq!(stats.min_fitness(), 10);
    assert_eq!(stats.max_fitness(), 40);
    assert_eq!(stats.avg_fitness(), 25);
    assert_eq!(stats.median_fitness(), 25);
    assert_eq!(stats.sum_fitness(), 100);
}
