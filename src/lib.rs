//! A genetic algorithm that evolves small agents foraging for food in a
//! toroidal world. Genes, positions and fitness are fixed-point or integer
//! values, so that every rule of the engine can be stated and proved.
pub mod random;
pub mod chromosome;
pub mod selection;
pub mod crossover;
pub mod mutation;
pub mod genetic;
pub mod world;
pub mod config;
pub mod simulation;
