//! A grid snake simulation.
//!
//! The game is a small deterministic state machine: a key press queues a turn,
//! a timer tick moves the snake by one cell. Every executable function states
//! its effect over the mathematical model in [`model`].
pub mod direction;
pub mod model;
pub mod snake;
pub mod board;
pub mod laws;

pub use direction::Direction;
pub use model::Pos;
pub use snake::{Msg, SnakeGame};
pub use board::Marker;
