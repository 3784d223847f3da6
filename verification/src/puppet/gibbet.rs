//! The stages of the drawing, from the bare frame to the whole figure.

use crate::constants::attempts::MAX_MISTAKES;
use crate::constants::gibbet_phases;
use vstd::prelude::*;

verus! {

/// How much of the figure hangs on the gibbet.
#[derive(Clone, Copy, Debug, PartialEq, Eq, Structural)]
pub enum Gibbet {
    Gibbet,
    Head,
    HeadAndRightArm,
    HeadRightArmAndLeftArm,
    HeadRightArmLeftArmAndStem,
    HeadRightArmLeftArmStemAndRightLeg,
    HeadRightArmLeftArmStemRightLegAndLeftLeg,
}

impl Gibbet {
    /// The drawing of this stage.
    pub open spec fn drawing(self) -> Seq<char> {
        match self {
            Gibbet::Gibbet => gibbet_phases::GIBBET@,
            Gibbet::Head => gibbet_phases::HEAD@,
            Gibbet::HeadAndRightArm => gibbet_phases::HEAD_AND_RIGHT_ARM@,
            Gibbet::HeadRightArmAndLeftArm => gibbet_phases::HEAD_RIGHT_ARM_AND_LEFT_ARM@,
            Gibbet::HeadRightArmLeftArmAndStem => gibbet_phases::HEAD_RIGHT_ARM_LEFT_ARM_AND_STEM@,
            Gibbet::HeadRightArmLeftArmStemAndRightLeg => {
                gibbet_phases::HEAD_RIGHT_ARM_LEFT_ARM_STEM_AND_RIGHT_LEG@
            },
            Gibbet::HeadRightArmLeftArmStemRightLegAndLeftLeg => {
                gibbet_phases::HEAD_RIGHT_ARM_LEFT_ARM_STEM_RIGHT_LEG_AND_LEFT_LEG@
            },
        }
    }

    /// The stage that belongs to `mistakes` mistakes: one stage for each
    /// number up to the limit, none beyond it.
    pub open spec fn stage(mistakes: int) -> Option<Gibbet> {
        if mistakes == 0 {
            Some(Gibbet::Gibbet)
        } else if mistakes == 1 {
            Some(Gibbet::Head)
        } else if mistakes == 2 {
            Some(Gibbet::HeadAndRightArm)
        } else if mistakes == 3 {
            Some(Gibbet::HeadRightArmAndLeftArm)
        } else if mistakes == 4 {
            Some(Gibbet::HeadRightArmLeftArmAndStem)
        } else if mistakes == 5 {
            Some(Gibbet::HeadRightArmLeftArmStemAndRightLeg)
        } else if mistakes == 6 {
            Some(Gibbet::HeadRightArmLeftArmStemRightLegAndLeftLeg)
        } else {
            None
        }
    }

    /// How many mistakes this stage shows.
    pub open spec fn mistakes(self) -> int {
        match self {
            Gibbet::Gibbet => 0,
            Gibbet::Head => 1,
            Gibbet::HeadAndRightArm => 2,
            Gibbet::HeadRightArmAndLeftArm => 3,
            Gibbet::HeadRightArmLeftArmAndStem => 4,
            Gibbet::HeadRightArmLeftArmStemAndRightLeg => 5,
            Gibbet::HeadRightArmLeftArmStemRightLegAndLeftLeg => 6,
        }
    }

    /// The stage for `attempts` mistakes, or `None` where `attempts` is
    /// beyond the limit and no stage belongs to it.
    pub fn for_attempts(attempts: u8) -> (stage: Option<Gibbet>)
        ensures
            stage == Gibbet::stage(attempts as int),
            stage is Some <==> attempts <= MAX_MISTAKES,
    {
        match attempts {
            0 => Some(Gibbet::Gibbet),
            1 => Some(Gibbet::Head),
            2 => Some(Gibbet::HeadAndRightArm),
            3 => Some(Gibbet::HeadRightArmAndLeftArm),
            4 => Some(Gibbet::HeadRightArmLeftArmAndStem),
            5 => Some(Gibbet::HeadRightArmLeftArmStemAndRightLeg),
            6 => Some(Gibbet::HeadRightArmLeftArmStemRightLegAndLeftLeg),
            _ => None,
        }
    }

    /// The drawing of this stage, as the text it is kept in.
    pub fn as_str(&self) -> (drawing: &'static str)
        ensures
            drawing@ == self.drawing(),
    {
        match self {
            Gibbet::Gibbet => gibbet_phases::GIBBET,
            Gibbet::Head => gibbet_phases::HEAD,
            Gibbet::HeadAndRightArm => gibbet_phases::HEAD_AND_RIGHT_ARM,
            Gibbet::HeadRightArmAndLeftArm => gibbet_phases::HEAD_RIGHT_ARM_AND_LEFT_ARM,
            Gibbet::HeadRightArmLeftArmAndStem => gibbet_phases::HEAD_RIGHT_ARM_LEFT_ARM_AND_STEM,
            Gibbet::HeadRightArmLeftArmStemAndRightLeg => {
                gibbet_phases::HEAD_RIGHT_ARM_LEFT_ARM_STEM_AND_RIGHT_LEG
            },
            Gibbet::HeadRightArmLeftArmStemRightLegAndLeftLeg => {
                gibbet_phases::HEAD_RIGHT_ARM_LEFT_ARM_STEM_RIGHT_LEG_AND_LEFT_LEG
            },
        }
    }

    /// The drawing of this stage, as a string of its own.
    pub fn to_string(&self) -> (drawing: String)
        ensures
            drawing@ == self.drawing(),
    {
        String::from_str(self.as_str())
    }
}

/// Every number of mistakes up to the limit has its own stage, and that
/// stage shows this number.
pub proof fn lemma_stage_of_every_count(mistakes: int)
    ensures
        0 <= mistakes <= MAX_MISTAKES <==> Gibbet::stage(mistakes) is Some,
        Gibbet::stage(mistakes) matches Some(stage) ==> stage.mistakes() == mistakes,
{
}

} // verus!
