//! Larvitar δ - Dragon Frontiers #52
use vstd::prelude::*;
use crate::model::SpecialCondition;

verus! {

pub const SET: &'static str = "DF";
pub const NUMBER: u32 = 52;
pub const NAME: &'static str = "Larvitar δ";

pub const ATTACK_1_NAME: &'static str = "Paralyzing Gaze";
pub const ATTACK_1_DAMAGE: u32 = 0;
pub const ATTACK_1_TEXT: &'static str = "Flip a coin. If heads, the Defending Pokémon is now Paralyzed.";

pub const ATTACK_2_NAME: &'static str = "Horn Attack";
pub const ATTACK_2_DAMAGE: u32 = 20;

/// The condition Paralyzing Gaze inflicts after its coin flip: Paralyzed on heads, none on tails.
pub fn paralyzing_gaze_condition(heads: bool) -> (r: Option<SpecialCondition>)
    ensures
        r == (if heads { Some(SpecialCondition::Paralyzed) } else { None::<SpecialCondition> }),
{
    if heads {
        Some(SpecialCondition::Paralyzed)
    } else {
        None
    }
}

} // verus!
