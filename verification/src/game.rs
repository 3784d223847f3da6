//! The round: its model, its laws, and the type that plays it.

pub mod game;
pub mod laws;
pub mod round;
