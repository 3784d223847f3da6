//! Where the game writes what it shows.

pub mod logger;
