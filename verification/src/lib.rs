//! Simulation core of a grid snake game: the play area, the snake's body and
//! its movement, collision detection, the apple's life cycle and the pacing of
//! the simulation.

pub mod apple;
pub mod atomic_counter_resource;
pub mod body;
pub mod collision;
pub mod direction;
pub mod grid;
pub mod growth;
pub mod movement;
pub mod pacing;
pub mod rng_resource;
pub mod spawn;
pub mod state;
