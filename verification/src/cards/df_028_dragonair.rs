//! Dragonair δ - Dragon Frontiers #28
use vstd::prelude::*;
use crate::model::SpecialCondition;

verus! {

pub const SET: &'static str = "DF";
pub const NUMBER: u32 = 28;
pub const NAME: &'static str = "Dragonair δ";

pub const ATTACK_1_NAME: &'static str = "Wrap";
pub const ATTACK_1_DAMAGE: u32 = 0;
pub const ATTACK_1_TEXT: &'static str = "Flip a coin. If heads, the Defending Pokémon is now Paralyzed.";

pub const ATTACK_2_NAME: &'static str = "Horn Attack";
pub const ATTACK_2_DAMAGE: u32 = 40;

/// The condition Wrap inflicts after its coin flip: Paralyzed on heads, none on tails.
pub fn wrap_condition(heads: bool) -> (r: Option<SpecialCondition>)
    ensures
        r == (if heads { Some(SpecialCondition::Paralyzed) } else { None::<SpecialCondition> }),
{
    if heads {
        Some(SpecialCondition::Paralyzed)
    } else {
        None
    }
}

} // verus!
