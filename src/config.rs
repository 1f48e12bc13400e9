//! The parameters of a run, read once when the simulation is built.
use vstd::prelude::*;
use crate::mutation::CHANCE_SCALE;
use crate::world::WORLD_MAX;

verus! {

/// Lengths are in fixed-point units, where 1_000_000 stands for 1.0;
/// chances are in parts per million.
#[derive(Clone, Copy, Debug, PartialEq, Eq)]
pub struct Config {
    /// Side of the square, wrap-around world.
    pub world_size: u32,
    pub population_size: usize,
    pub food_count: usize,
    /// Ticks in one generation.
    pub generation_length: usize,
    pub mutation_chance: u32,
    pub mutation_coefficient: u32,
    /// How far an agent sees, along each axis.
    pub eye_range: u32,
    /// How close, along each axis, an agent must come to food to eat it.
    pub eat_radius: u32,
    pub speed_max: u32,
    /// Largest change of speed in one tick.
    pub speed_accel: u32,
}

impl Config {
    pub open spec fn valid(&self) -> bool {
        &&& 1 <= self.world_size <= WORLD_MAX
        &&& self.population_size >= 1
        &&& self.food_count >= 1
        &&& self.generation_length >= 1
        &&& self.mutation_chance <= CHANCE_SCALE
        &&& self.speed_max <= self.world_size
    }

    /// The configuration used where none is given.
    pub open spec fn standard() -> Config {
        Config {
            world_size: 1_000_000,
            population_size: 40,
            food_count: 60,
            generation_length: 2500,
            mutation_chance: 10_000,
            mutation_coefficient: 300_000,
            eye_range: 250_000,
            eat_radius: 10_000,
            speed_max: 5_000,
            speed_accel: 200,
        }
    }

    pub fn is_valid(&self) -> (r: bool)
        ensures
            r == self.valid(),
    {
        1 <= self.world_size && self.world_size <= WORLD_MAX && self.population_size >= 1
            && self.food_count >= 1 && self.generation_length >= 1
            && self.mutation_chance <= CHANCE_SCALE && self.speed_max <= self.world_size
    }
}

impl Default for Config {
    fn default() -> (r: Config)
        ensures
            r == Config::standard(),
            r.valid(),
    {
        Config {
            world_size: 1_000_000,
            population_size: 40,
            food_count: 60,
            generation_length: 2500,
            mutation_chance: 10_000,
            mutation_coefficient: 300_000,
            eye_range: 250_000,
            eat_radius: 10_000,
            speed_max: 5_000,
            speed_accel: 200,
        }
    }
}

} // verus!
