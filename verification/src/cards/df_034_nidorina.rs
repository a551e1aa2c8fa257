//! Nidorina δ - Dragon Frontiers #34
use vstd::prelude::*;
use crate::model::SpecialCondition;

verus! {

pub const SET: &'static str = "DF";
pub const NUMBER: u32 = 34;
pub const NAME: &'static str = "Nidorina δ";

pub const ATTACK_1_NAME: &'static str = "Poison Sting";
pub const ATTACK_1_DAMAGE: u32 = 10;
pub const ATTACK_1_TEXT: &'static str = "The Defending Pokémon is now Poisoned.";

pub const ATTACK_2_NAME: &'static str = "Rear Kick";
pub const ATTACK_2_DAMAGE: u32 = 40;

/// The condition Poison Sting inflicts on the Defending Pokémon.
pub fn poison_sting_condition() -> (r: SpecialCondition)
    ensures
        r == SpecialCondition::Poisoned,
{
    SpecialCondition::Poisoned
}

} // verus!
