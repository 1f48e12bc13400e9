use evolution_sim::config::Config;
use evolution_sim::simulation::{ConfigError, Simulation, Statistics};
use rand::rngs::StdRng;
use rand::SeedableRng;

fn small_config() -> Config {
    Config { population_size: 10, food_count: 20, generation_length: 50, ..Config::default() }
}

fn sim(config: Config, seed: u64) -> (Simulation, StdRng) {
    let mut rng = StdRng::seed_from_u64(seed);
    let s = Simulation::new(config, &mut rng).unwrap();
    (s, rng)
}

#[test]
fn invalid_configs_are_refused() {
    let bad = [
        Config { population_size: 0, ..Config::default() },
        Config { food_count: 0, ..Config::default() },
        Config { generation_length: 0, ..Config::default() },
        Config { world_size: 0, ..Config::default() },
        Config { mutation_chance: 1_000_001, ..Config::default() },
        Config { speed_max: 2_000_000, ..Config::default() },
    ];
    for c in bad {
        assert_eq!(Simulation::new(c, &mut StdRng::seed_from_u64(0)).err(), Some(ConfigError::Invalid));
    }
    assert!(Simulation::new(Simulation::default_config(), &mut StdRng::seed_from_u64(0)).is_ok());
}

#[test]
fn fresh_simulation_has_no_fitness_statistics() {
    let (s, _) = sim(small_config(), 1);
    let st = s.statistics();
    assert_eq!((st.age(), st.generation(), st.generation_length()), (0, 0, 50));
    assert_eq!((st.min(), st.avg(), st.max()), (None, None, None));
    assert_eq!(s.world().agents.len(), 10);
    assert_eq!(s.world().foods.len(), 20);
    assert_eq!(*s.config(), small_config());
}

#[test]
fn step_reports_only_at_the_boundary() {
    let (mut s, mut rng) = sim(small_config(), 2);
    for k in 1..50 {
        assert!(s.step(&mut rng).is_none(), "tick {}", k);
        assert_eq!(s.statistics().age(), k);
    }
    let st = s.step(&mut rng).expect("boundary");
    assert_eq!((st.age(), st.generation(), st.generation_length()), (0, 1, 50));
}

#[test]
fn train_matches_manual_steps() {
    let (mut a, mut ra) = sim(small_config(), 3);
    let (mut b, mut rb) = sim(small_config(), 3);
    let trained = a.train(&mut ra);
    let mut stepped: Option<Statistics> = None;
    for _ in 0..50 {
        stepped = b.step(&mut rb);
    }
    assert_eq!(Some(trained), stepped);
}

#[test]
fn runs_with_one_seed_agree() {
    let (mut a, mut ra) = sim(small_config(), 9);
    let (mut b, mut rb) = sim(small_config(), 9);
    for _ in 0..3 {
        assert_eq!(a.train(&mut ra), b.train(&mut rb));
    }
}

#[test]
fn fitness_never_drops_within_a_generation() {
    let c = Config { population_size: 20, food_count: 200, eat_radius: 50_000, ..small_config() };
    let (mut s, mut rng) = sim(c, 4);
    let mut before: Vec<u64> = s.world().agents.iter().map(|a| a.fitness).collect();
    for _ in 0..49 {
        assert!(s.step(&mut rng).is_none());
        let now: Vec<u64> = s.world().agents.iter().map(|a| a.fitness).collect();
        assert!(now.iter().zip(before.iter()).all(|(n, b)| n >= b));
        before = now;
    }
    assert!(before.iter().sum::<u64>() > 0);
}

#[test]
fn one_training_run_end_to_end() {
    let c = Config { population_size: 10, generation_length: 2500, ..Config::default() };
    let (mut s, mut rng) = sim(c, 42);
    let st = s.train(&mut rng);
    assert_eq!(st.generation(), 1);
    assert_eq!(st.age(), 0);
    assert_eq!(st.generation_length(), 2500);
    let (min, avg, max) = (st.min().unwrap(), st.avg().unwrap(), st.max().unwrap());
    assert!(min <= avg && avg <= max);
    assert!(s.world().agents.iter().all(|a| a.brain.len() == 9 && a.fitness == 0));
}
