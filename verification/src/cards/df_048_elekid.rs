//! Elekid δ - Dragon Frontiers #48
use vstd::prelude::*;

verus! {

pub const SET: &'static str = "DF";
pub const NUMBER: u32 = 48;
pub const NAME: &'static str = "Elekid δ";

pub const ABILITY_1_NAME: &'static str = "Baby Evolution";
pub const ABILITY_1_TEXT: &'static str = "Once during your turn (before your attack), you may put Electabuzz from your hand onto Elekid (this counts as evolving Elekid) and remove all damage counters from Elekid.";

pub const ATTACK_1_NAME: &'static str = "Thunder Spear";
pub const ATTACK_1_DAMAGE: u32 = 0;
pub const ATTACK_1_TEXT: &'static str = "Choose 1 of your opponent's Pokémon. This attack does 10 damage to that Pokémon. (Don't apply Weakness and Resistance for Benched Pokémon.)";

/// Thunder Spear: the damage done to the chosen Pokémon.
pub fn thunder_spear_snipe_damage() -> (r: u32)
    ensures
        r == 10,
{
    10
}

/// Thunder Spear: the target scope of the attack. The player chooses any 1
/// of the opponent's Pokémon, Active or Benched, so the scope is all of them.
pub fn thunder_spear_snipe_scope() -> (r: &'static str)
    ensures
        r@ == "OppAll"@,
{
    "OppAll"
}

} // verus!
