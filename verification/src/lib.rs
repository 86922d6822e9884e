//! Travelling-salesman search over a square matrix of integer distances.

pub mod exact;
pub mod generate;
pub mod heuristic;
pub mod matrix;
pub mod path;
pub mod permutations;
mod random;

pub use exact::brute_force_tsp;
pub use generate::{generate_map, map_from_weights};
pub use heuristic::{generate_random_path, keep_better, random_restart_tsp, simulated_annealing_tsp};
pub use matrix::valid_city_map;
pub use path::path_cost;
