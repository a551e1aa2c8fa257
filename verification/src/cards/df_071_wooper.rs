//! Wooper δ - Dragon Frontiers #71
use vstd::prelude::*;

verus! {

pub const SET: &'static str = "DF";
pub const NUMBER: u32 = 71;
pub const NAME: &'static str = "Wooper δ";

pub const ATTACK_1_NAME: &'static str = "Amnesia";
pub const ATTACK_1_DAMAGE: u32 = 0;
pub const ATTACK_1_TEXT: &'static str = "Choose 1 of the Defending Pokémon's attacks. That Pokémon can't use that attack during your opponent's next turn.";

pub const ATTACK_2_NAME: &'static str = "Tail Slap";
pub const ATTACK_2_DAMAGE: u32 = 20;

} // verus!
