use evolution_sim::chromosome::{Chromosome, Individual};
use evolution_sim::config::Config;
use evolution_sim::simulation::{agent_reaches, World};
use evolution_sim::world::{eye_cell, offset, output, step_coord, Agent, Food, Vision};
use rand::rngs::StdRng;
use rand::SeedableRng;

fn agent_at(x: u32, y: u32, heading: u32, genes: Vec<i64>) -> Agent {
    let mut a = Agent::create(Chromosome::new(genes));
    a.x = x;
    a.y = y;
    a.heading = heading;
    a
}

#[test]
fn offsets_take_the_short_way_round() {
    assert_eq!(offset(10, 30, 100), 20);
    assert_eq!(offset(30, 10, 100), -20);
    assert_eq!(offset(90, 10, 100), 20);
    assert_eq!(offset(10, 90, 100), -20);
    assert_eq!(offset(0, 50, 100), 50);
    assert_eq!(offset(0, 51, 100), -49);
}

#[test]
fn eye_cells_by_direction() {
    // Facing east (heading 0).
    assert_eq!(eye_cell(10, 0, 0, 100), 1);
    assert_eq!(eye_cell(10, 10, 0, 100), 0);
    assert_eq!(eye_cell(10, -10, 0, 100), 2);
    assert_eq!(eye_cell(-10, 0, 0, 100), 3);
    assert_eq!(eye_cell(200, 0, 0, 100), 3);
    // Facing north (heading 2).
    assert_eq!(eye_cell(0, 10, 2, 100), 1);
    assert_eq!(eye_cell(-10, 10, 2, 100), 0);
    assert_eq!(eye_cell(10, 10, 2, 100), 2);
}

#[test]
fn coordinates_wrap() {
    assert_eq!(step_coord(95, 1, 10, 100), 5);
    assert_eq!(step_coord(5, -1, 10, 100), 95);
    assert_eq!(step_coord(50, 0, 10, 100), 50);
    assert_eq!(step_coord(50, 1, 10, 100), 60);
}

#[test]
fn brain_outputs_weigh_what_is_seen() {
    let w = Chromosome::new(vec![1, 2, 3, 4, 5, 6, -7, 8, 2_000_000_000]);
    let v = Vision { left: 1, ahead: 2, right: 3 };
    assert_eq!(output(&w, 0, v), 1 + 4 + 9);
    assert_eq!(output(&w, 1, v), 4 + 10 + 18);
    assert_eq!(output(&w, 2, v), -7 + 16 + 3_000_000_000);
}

#[test]
fn steering_follows_the_brain() {
    let c = Config::default();
    // Speed output 1.0 per food ahead; left turn output 1.0 per food ahead.
    let mut a = agent_at(0, 0, 0, vec![0, 1_000_000, 0, 0, 1_000_000, 0, 0, 0, 0]);
    a.steer(Vision { left: 0, ahead: 1, right: 0 }, &c);
    assert_eq!(a.speed, 200);
    assert_eq!(a.heading, 1);
    // Right turn wins, and speed cannot go below zero.
    let mut b = agent_at(0, 0, 0, vec![-1_000_000, 0, 0, 0, 0, 0, 0, 1_000_000, 0]);
    b.steer(Vision { left: 0, ahead: 1, right: 0 }, &c);
    assert_eq!(b.speed, 0);
    assert_eq!(b.heading, 7);
}

#[test]
fn advancing_moves_along_the_heading() {
    let c = Config::default();
    let mut a = agent_at(999_000, 10, 1, vec![0; 9]);
    a.speed = 5_000;
    a.advance(&c);
    assert_eq!((a.x, a.y), (4_000, 5_010));
}

#[test]
fn seeing_counts_food_per_cell() {
    let c = Config::default();
    let a = agent_at(500_000, 500_000, 0, vec![0; 9]);
    let foods = vec![
        Food { x: 600_000, y: 500_000 },
        Food { x: 600_000, y: 510_000 },
        Food { x: 600_000, y: 600_000 },
        Food { x: 600_000, y: 400_000 },
        Food { x: 400_000, y: 500_000 },
        Food { x: 900_000, y: 500_000 },
    ];
    assert_eq!(a.see(&foods, &c), Vision { left: 1, ahead: 2, right: 1 });
}

#[test]
fn eye_cells_cap_their_count() {
    let c = Config::default();
    let a = agent_at(0, 0, 0, vec![0; 9]);
    let foods = vec![Food { x: 1000, y: 0 }; 20];
    assert_eq!(a.see(&foods, &c).ahead, 8);
}

#[test]
fn reaching_food_across_the_edge() {
    let c = Config::default();
    let a = agent_at(999_995, 0, 0, vec![0; 9]);
    assert!(agent_reaches(&a, Food { x: 5_000, y: 999_000 }, &c));
    assert!(!agent_reaches(&a, Food { x: 20_000, y: 0 }, &c));
}

#[test]
fn eating_raises_fitness_and_moves_food() {
    let c = Config { population_size: 1, food_count: 1, ..Config::default() };
    let mut w = World { agents: vec![agent_at(100, 100, 0, vec![0; 9])], foods: vec![Food { x: 105, y: 95 }] };
    let mut rng = StdRng::seed_from_u64(8);
    w.process_collisions(&c, &mut rng);
    assert_eq!(w.agents[0].fitness, 1);
    assert_ne!(w.foods[0], Food { x: 105, y: 95 });
}

#[test]
fn eating_with_given_regrowth_is_exact() {
    let c = Config { population_size: 2, food_count: 2, ..Config::default() };
    let mut w = World {
        agents: vec![agent_at(100, 100, 0, vec![0; 9]), agent_at(5_000, 5_000, 0, vec![0; 9])],
        foods: vec![Food { x: 105, y: 95 }, Food { x: 900_000, y: 900_000 }],
    };
    // The first agent eats food 0, which regrows next to the second agent.
    let regrown = vec![
        vec![Food { x: 5_001, y: 5_001 }, Food { x: 1, y: 1 }],
        vec![Food { x: 700_000, y: 700_000 }, Food { x: 2, y: 2 }],
    ];
    w.eat_with(&c, &regrown);
    assert_eq!(w.agents[0].fitness, 1);
    assert_eq!(w.agents[1].fitness, 1);
    assert_eq!(w.foods, vec![Food { x: 700_000, y: 700_000 }, Food { x: 900_000, y: 900_000 }]);
}

#[test]
fn random_world_has_configured_sizes() {
    let c = Config { population_size: 7, food_count: 13, ..Config::default() };
    let mut rng = StdRng::seed_from_u64(6);
    let w = World::random(&c, &mut rng);
    assert_eq!(w.agents.len(), 7);
    assert_eq!(w.foods.len(), 13);
    assert!(w.agents.iter().all(|a| a.x < c.world_size && a.y < c.world_size && a.heading < 8));
    assert!(w.agents.iter().all(|a| a.chromosome().genes.iter().all(|g| g.abs() <= 1_000_000)));
}
