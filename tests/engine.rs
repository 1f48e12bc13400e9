use evolution_sim::chromosome::{Chromosome, Individual};
use evolution_sim::crossover::UniformCrossover;
use evolution_sim::genetic::{FitnessStatistics, GeneticAlgorithm};
use evolution_sim::mutation::GaussianMutation;
use evolution_sim::selection::{pick_index, weight_total, RouletteWheelSelection, SelectionMethod};
use evolution_sim::world::Agent;
use rand::rngs::StdRng;
use rand::SeedableRng;

fn agent(fitness: u64, genes: Vec<i64>) -> Agent {
    let mut a = Agent::create(Chromosome::new(genes));
    a.fitness = fitness;
    a
}

fn population(fitness: &[u64]) -> Vec<Agent> {
    fitness
        .iter()
        .enumerate()
        .map(|(i, f)| agent(*f, vec![i as i64; 9]))
        .collect()
}

#[test]
fn wheel_total_sums_weights() {
    assert_eq!(weight_total(&vec![1, 1, 1, 1, 1000]), 1004);
    assert_eq!(weight_total(&vec![u64::MAX, u64::MAX]), 2 * (u64::MAX as u128));
    assert_eq!(weight_total(&vec![]), 0);
}

#[test]
fn wheel_draw_lands_in_its_slot() {
    let w = vec![1, 1, 1, 1, 1000];
    assert_eq!(pick_index(&w, 0), 0);
    assert_eq!(pick_index(&w, 1), 1);
    assert_eq!(pick_index(&w, 3), 3);
    assert_eq!(pick_index(&w, 4), 4);
    assert_eq!(pick_index(&w, 1003), 4);
    let w = vec![0, 5, 0, 2];
    assert_eq!(pick_index(&w, 0), 1);
    assert_eq!(pick_index(&w, 4), 1);
    assert_eq!(pick_index(&w, 5), 3);
    assert_eq!(pick_index(&w, 6), 3);
}

#[test]
fn wheel_of_zero_weights_picks_the_draw() {
    let w = vec![0, 0, 0, 0];
    for d in 0..4u128 {
        assert_eq!(pick_index(&w, d), d as usize);
    }
}

#[test]
fn selection_favours_the_fittest() {
    let pop = population(&[1, 1, 1, 1, 1000]);
    let mut rng = StdRng::seed_from_u64(42);
    let method = RouletteWheelSelection::new();
    let mut counts = [0usize; 5];
    for _ in 0..10_000 {
        counts[method.select(&pop, &mut rng)] += 1;
    }
    let share = counts[4] as f64 / 10_000.0;
    assert!((share - 1000.0 / 1004.0).abs() < 0.01, "share {}", share);
}

#[test]
fn selection_without_fitness_is_uniform() {
    let pop = population(&[0, 0, 0, 0]);
    let mut rng = StdRng::seed_from_u64(7);
    let method = RouletteWheelSelection::new();
    let mut counts = [0usize; 4];
    for _ in 0..10_000 {
        counts[method.select(&pop, &mut rng)] += 1;
    }
    for c in counts {
        assert!((c as f64 / 10_000.0 - 0.25).abs() < 0.03, "count {}", c);
    }
}

#[test]
fn selection_never_picks_zero_fitness_beside_positive() {
    let pop = population(&[0, 3, 0, 0]);
    let mut rng = StdRng::seed_from_u64(1);
    let method = RouletteWheelSelection::new();
    for _ in 0..1000 {
        assert_eq!(method.select(&pop, &mut rng), 1);
    }
}

#[test]
fn crossover_with_takes_genes_as_told() {
    let a = Chromosome::new(vec![1, 2, 3, 4]);
    let b = Chromosome::new(vec![-1, -2, -3, -4]);
    let c = UniformCrossover::new().crossover_with(&a, &b, &vec![true, false, false, true]);
    assert_eq!(c.genes, vec![1, -2, -3, 4]);
}

#[test]
fn crossover_keeps_length_and_mixes_parents() {
    let a = Chromosome::new(vec![1; 100]);
    let b = Chromosome::new(vec![2; 100]);
    let mut rng = StdRng::seed_from_u64(3);
    let c = UniformCrossover::new().crossover(&a, &b, &mut rng);
    assert_eq!(c.len(), 100);
    assert!(c.genes.iter().all(|g| *g == 1 || *g == 2));
    assert!(c.genes.contains(&1) && c.genes.contains(&2));
}

#[test]
fn mutate_gene_values() {
    let m = GaussianMutation::new(500_000, 300_000);
    assert_eq!(m.mutate_gene(10, 499_999, false, 7), 17);
    assert_eq!(m.mutate_gene(10, 499_999, true, 7), 3);
    assert_eq!(m.mutate_gene(10, 500_000, true, 7), 10);
    assert_eq!(m.mutate_gene(i64::MAX - 1, 0, false, 7), i64::MAX);
    assert_eq!(m.mutate_gene(i64::MIN + 1, 0, true, 7), i64::MIN);
}

#[test]
fn mutation_with_zero_chance_changes_nothing() {
    let m = GaussianMutation::new(0, 300_000);
    let mut c = Chromosome::new(vec![5, -5, 0, 1_000_000]);
    let mut rng = StdRng::seed_from_u64(11);
    m.mutate(&mut c, &mut rng);
    assert_eq!(c.genes, vec![5, -5, 0, 1_000_000]);
}

#[test]
fn mutation_with_full_chance_stays_within_coefficient() {
    let m = GaussianMutation::new(1_000_000, 300_000);
    let before: Vec<i64> = (0..200).map(|i| i * 1000 - 100_000).collect();
    let mut c = Chromosome::new(before.clone());
    let mut rng = StdRng::seed_from_u64(12);
    m.mutate(&mut c, &mut rng);
    assert_eq!(c.len(), before.len());
    assert!(c.genes.iter().zip(before.iter()).all(|(a, b)| (a - b).abs() <= 300_000));
    assert!(c.genes != before);
}

#[test]
fn fitness_statistics_values() {
    let s = FitnessStatistics::of(&vec![3, 0, 7, 4]);
    assert_eq!(s, FitnessStatistics { min_fitness: 0, avg_fitness: 3, max_fitness: 7 });
    let s = FitnessStatistics::of(&vec![5]);
    assert_eq!(s, FitnessStatistics { min_fitness: 5, avg_fitness: 5, max_fitness: 5 });
}

#[test]
fn evolve_keeps_size_and_length() {
    let ga = GeneticAlgorithm::new(
        RouletteWheelSelection::new(),
        UniformCrossover::new(),
        GaussianMutation::new(10_000, 300_000),
    );
    let mut rng = StdRng::seed_from_u64(5);
    for n in [1usize, 2, 7, 40] {
        let fitness: Vec<u64> = (0..n as u64).collect();
        let pop = population(&fitness);
        let (next, stats) = ga.evolve(&pop, &mut rng);
        assert_eq!(next.len(), n);
        assert!(next.iter().all(|a| a.brain.len() == 9 && a.fitness == 0));
        assert_eq!(stats.min_fitness, 0);
        assert_eq!(stats.max_fitness, n as u64 - 1);
        assert_eq!(stats.avg_fitness, (n as u64 - 1) / 2);
    }
}
