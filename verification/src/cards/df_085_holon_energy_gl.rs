//! Holon Energy GL - Dragon Frontiers #85
use vstd::prelude::*;

verus! {

pub const SET: &'static str = "DF";
pub const NUMBER: u32 = 85;
pub const NAME: &'static str = "Holon Energy GL";

} // verus!
