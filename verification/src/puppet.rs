//! The figure on the gibbet.

pub mod gibbet;
