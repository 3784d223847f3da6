//! The seven drawings of the gibbet, one for each number of mistakes.

use vstd::prelude::*;

verus! {

/// The bare frame: no mistake yet.
pub const GIBBET: &'static str =
    "\n    |________________\n    |  /            |\n    | /             |\n    |\n    |\n    |\n    |\n    |\n    |\n    |\n    |\n    |\n";

/// The frame with the head: one mistake.
pub const HEAD: &'static str =
    "\n    |________________\n    |  /            |\n    | /             |\n    |               \u{2689}\n    |\n    |\n    |\n    |\n    |\n    |\n    |\n    |\n";

/// Head and right arm: two mistakes.
pub const HEAD_AND_RIGHT_ARM: &'static str =
    "\n    |________________\n    |  /            |\n    | /             |\n    |               \u{2689}\n    |              /\n    |\n    |\n    |\n    |\n    |\n    |\n    |\n";

/// Head and both arms: three mistakes.
pub const HEAD_RIGHT_ARM_AND_LEFT_ARM: &'static str =
    "\n    |________________\n    |  /            |\n    | /             |\n    |               \u{2689}\n    |              / \\\n    |\n    |\n    |\n    |\n    |\n    |\n    |\n";

/// Head, both arms and the stem: four mistakes.
pub const HEAD_RIGHT_ARM_LEFT_ARM_AND_STEM: &'static str =
    "\n    |________________\n    |  /            |\n    | /             |\n    |               \u{2689}\n    |              /|\\\n    |\n    |\n    |\n    |\n    |\n    |\n";

/// Head, both arms, the stem and the right leg: five mistakes.
pub const HEAD_RIGHT_ARM_LEFT_ARM_STEM_AND_RIGHT_LEG: &'static str =
    "\n    |________________\n    |  /            |\n    | /             |\n    |               \u{2689}\n    |              /|\\\n    |              /\n    |\n    |\n    |\n    |\n    |\n";

/// The whole figure: six mistakes, the round is lost.
pub const HEAD_RIGHT_ARM_LEFT_ARM_STEM_RIGHT_LEG_AND_LEFT_LEG: &'static str =
    "\n    |________________\n    |  /            |\n    | /             |\n    |               \u{2689}\n    |              /|\\\n    |              / \\\n    |\n    |\n    |\n    |\n    |\n";

} // verus!
