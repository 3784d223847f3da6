//! Where the secret word comes from.

pub mod random_word;
