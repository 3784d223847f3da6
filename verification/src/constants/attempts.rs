//! How many mistakes a round allows.

use vstd::prelude::*;

verus! {

/// The number of mistakes at which a round is lost.
pub const MAX_MISTAKES: u8 = 6;

} // verus!
