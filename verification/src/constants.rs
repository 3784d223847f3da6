//! The fixed data of the game: the limit on mistakes and the drawings.

pub mod attempts;
pub mod gibbet_phases;
