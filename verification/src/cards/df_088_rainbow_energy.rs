//! δ Rainbow Energy - Dragon Frontiers #88
use vstd::prelude::*;

verus! {

pub const SET: &'static str = "DF";
pub const NUMBER: u32 = 88;
pub const NAME: &'static str = "δ Rainbow Energy";

} // verus!
