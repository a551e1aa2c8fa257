//! Shelgon δ - Dragon Frontiers #38
use vstd::prelude::*;

verus! {

pub const SET: &'static str = "DF";
pub const NUMBER: u32 = 38;
pub const NAME: &'static str = "Shelgon δ";

pub const ATTACK_1_NAME: &'static str = "Headbutt";
pub const ATTACK_1_DAMAGE: u32 = 20;

pub const ATTACK_2_NAME: &'static str = "Double-edge";
pub const ATTACK_2_DAMAGE: u32 = 50;
pub const ATTACK_2_TEXT: &'static str = "Shelgon does 10 damage to itself.";

/// Double-edge: the damage Shelgon does to itself.
pub fn double_edge_self_damage() -> (r: u32)
    ensures
        r == 10,
{
    10
}

} // verus!
