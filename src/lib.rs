//! A grid-based snake simulation engine: the occupancy model, the snake's
//! body, the periodic spawn timers, the direction buffer and the game's
//! state machine, each with a verified contract.

pub mod cell;
pub mod grid;
pub mod snake;
pub mod timer;
pub mod steering;
pub mod random;
pub mod game;
