//! Switch - Dragon Frontiers #83
use vstd::prelude::*;

verus! {

pub const SET: &'static str = "DF";
pub const NUMBER: u32 = 83;
pub const NAME: &'static str = "Switch";

} // verus!
