//! Seel δ - Dragon Frontiers #62
use vstd::prelude::*;

verus! {

pub const SET: &'static str = "DF";
pub const NUMBER: u32 = 62;
pub const NAME: &'static str = "Seel δ";

pub const ATTACK_1_NAME: &'static str = "Pound";
pub const ATTACK_1_DAMAGE: u32 = 10;

pub const ATTACK_2_NAME: &'static str = "Aurora Beam";
pub const ATTACK_2_DAMAGE: u32 = 20;

} // verus!
