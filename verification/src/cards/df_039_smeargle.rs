//! Smeargle δ - Dragon Frontiers #39
use vstd::prelude::*;
use crate::model::SpecialCondition;

verus! {

pub const SET: &'static str = "DF";
pub const NUMBER: u32 = 39;
pub const NAME: &'static str = "Smeargle δ";

pub const ATTACK_1_NAME: &'static str = "Collect";
pub const ATTACK_1_DAMAGE: u32 = 0;
pub const ATTACK_1_TEXT: &'static str = "Draw a card.";

pub const ATTACK_2_NAME: &'static str = "Flickering Tail";
pub const ATTACK_2_DAMAGE: u32 = 10;
pub const ATTACK_2_TEXT: &'static str = "If the Defending Pokémon is Pokémon-ex, this attack does 10 damage plus 10 more damage and the Defending Pokémon is now Asleep.";

/// The condition Flickering Tail inflicts on the Defending Pokémon.
pub fn flickering_tail_condition() -> (r: SpecialCondition)
    ensures
        r == SpecialCondition::Asleep,
{
    SpecialCondition::Asleep
}

} // verus!
