//! Kirlia - Dragon Frontiers #32
use vstd::prelude::*;
use crate::model::SpecialCondition;

verus! {

pub const SET: &'static str = "DF";
pub const NUMBER: u32 = 32;
pub const NAME: &'static str = "Kirlia";

pub const ATTACK_1_NAME: &'static str = "Psyshock";
pub const ATTACK_1_DAMAGE: u32 = 20;
pub const ATTACK_1_TEXT: &'static str = "Flip a coin. If heads, the Defending Pokémon is now Paralyzed.";

pub const ATTACK_2_NAME: &'static str = "Link Blast";
pub const ATTACK_2_DAMAGE: u32 = 60;
pub const ATTACK_2_TEXT: &'static str = "If Kirlia and the Defending Pokémon have a different amount of Energy attached to them, this attack's base damage is 30 instead of 60.";

/// The condition Psyshock inflicts after its coin flip: Paralyzed on heads, none on tails.
pub fn psyshock_condition(heads: bool) -> (r: Option<SpecialCondition>)
    ensures
        r == (if heads { Some(SpecialCondition::Paralyzed) } else { None::<SpecialCondition> }),
{
    if heads {
        Some(SpecialCondition::Paralyzed)
    } else {
        None
    }
}

} // verus!
