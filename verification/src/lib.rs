//! A small artificial-life simulation: animals that see food through a sectored
//! eye, steer with a feed-forward network, and are bred by a genetic algorithm.
//!
//! Every number is a fixed-point [`scalar::Scalar`], so each step of the
//! simulation is exact integer arithmetic with a stated result.

pub mod scalar;
pub mod angle;
pub mod geometry;
pub mod random;
pub mod network;
pub mod genetic;
pub mod config;
pub mod food;
pub mod eye;
pub mod brain;
pub mod animal;
pub mod animal_individual;
pub mod world;
pub mod simulation;

pub use crate::animal::Animal;
pub use crate::brain::Brain;
pub use crate::config::Config;
pub use crate::eye::Eye;
pub use crate::food::Food;
pub use crate::genetic::Statistics;
pub use crate::network::{LayerTopology, Network};
pub use crate::scalar::Scalar;
pub use crate::simulation::Simulation;
pub use crate::world::World;
