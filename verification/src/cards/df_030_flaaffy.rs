//! Flaaffy δ - Dragon Frontiers #30
use vstd::prelude::*;
use crate::model::SpecialCondition;

verus! {

pub const SET: &'static str = "DF";
pub const NUMBER: u32 = 30;
pub const NAME: &'static str = "Flaaffy δ";

pub const ATTACK_1_NAME: &'static str = "Thundershock";
pub const ATTACK_1_DAMAGE: u32 = 20;
pub const ATTACK_1_TEXT: &'static str = "Flip a coin. If heads, the Defending Pokémon is now Paralyzed.";

/// The condition Thundershock inflicts after its coin flip: Paralyzed on heads, none on tails.
pub fn thundershock_condition(heads: bool) -> (r: Option<SpecialCondition>)
    ensures
        r == (if heads { Some(SpecialCondition::Paralyzed) } else { None::<SpecialCondition> }),
{
    if heads {
        Some(SpecialCondition::Paralyzed)
    } else {
        None
    }
}

} // verus!
