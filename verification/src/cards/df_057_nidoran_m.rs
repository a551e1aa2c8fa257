//! Nidoran ♂ δ - Dragon Frontiers #57
use vstd::prelude::*;
use crate::model::SpecialCondition;

verus! {

pub const SET: &'static str = "DF";
pub const NUMBER: u32 = 57;
pub const NAME: &'static str = "Nidoran ♂ δ";

pub const ATTACK_1_NAME: &'static str = "Peck";
pub const ATTACK_1_DAMAGE: u32 = 10;

pub const ATTACK_2_NAME: &'static str = "Poison Horn";
pub const ATTACK_2_DAMAGE: u32 = 0;
pub const ATTACK_2_TEXT: &'static str = "Flip a coin. If heads, the Defending Pokémon is now Poisoned.";

/// The condition Poison Horn inflicts after its coin flip: Poisoned on heads, none on tails.
pub fn poison_horn_condition(heads: bool) -> (r: Option<SpecialCondition>)
    ensures
        r == (if heads { Some(SpecialCondition::Poisoned) } else { None::<SpecialCondition> }),
{
    if heads {
        Some(SpecialCondition::Poisoned)
    } else {
        None
    }
}

} // verus!
