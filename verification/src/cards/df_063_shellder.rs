//! Shellder δ - Dragon Frontiers #63
use vstd::prelude::*;
use crate::model::SpecialCondition;

verus! {

pub const SET: &'static str = "DF";
pub const NUMBER: u32 = 63;
pub const NAME: &'static str = "Shellder δ";

pub const ATTACK_1_NAME: &'static str = "Shell Grab";
pub const ATTACK_1_DAMAGE: u32 = 10;
pub const ATTACK_1_TEXT: &'static str = "Flip a coin. If heads, the Defending Pokémon is now Paralyzed.";

/// The condition Shell Grab inflicts after its coin flip: Paralyzed on heads, none on tails.
pub fn shell_grab_condition(heads: bool) -> (r: Option<SpecialCondition>)
    ensures
        r == (if heads { Some(SpecialCondition::Paralyzed) } else { None::<SpecialCondition> }),
{
    if heads {
        Some(SpecialCondition::Paralyzed)
    } else {
        None
    }
}

} // verus!
