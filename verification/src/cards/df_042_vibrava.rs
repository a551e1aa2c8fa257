//! Vibrava δ - Dragon Frontiers #42
use vstd::prelude::*;

verus! {

pub const SET: &'static str = "DF";
pub const NUMBER: u32 = 42;
pub const NAME: &'static str = "Vibrava δ";

pub const ATTACK_1_NAME: &'static str = "Bite";
pub const ATTACK_1_DAMAGE: u32 = 20;

pub const ATTACK_2_NAME: &'static str = "Sonic Noise";
pub const ATTACK_2_DAMAGE: u32 = 30;
pub const ATTACK_2_TEXT: &'static str = "If the Defending Pokémon is Pokémon-ex, that Pokémon is now Confused.";

} // verus!
