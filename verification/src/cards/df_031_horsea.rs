//! Horsea δ - Dragon Frontiers #31
use vstd::prelude::*;

verus! {

pub const SET: &'static str = "DF";
pub const NUMBER: u32 = 31;
pub const NAME: &'static str = "Horsea δ";

pub const ATTACK_1_NAME: &'static str = "Tackle";
pub const ATTACK_1_DAMAGE: u32 = 10;

pub const ATTACK_2_NAME: &'static str = "Reverse Thrust";
pub const ATTACK_2_DAMAGE: u32 = 20;
pub const ATTACK_2_TEXT: &'static str = "Switch Horsea with 1 of your Benched Pokémon.";

} // verus!
