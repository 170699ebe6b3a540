//! A small skeleton for real-time applications: a stack of scenes that a
//! fixed-timestep loop drives, and a table that turns raw key events into
//! per-key states.

mod clock;
pub mod event;
pub mod game;
pub mod key_table;
pub mod scene;
pub mod traits;

pub use game::Game;
