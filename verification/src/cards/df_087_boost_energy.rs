//! Boost Energy - Dragon Frontiers #87
use vstd::prelude::*;

verus! {

pub const SET: &'static str = "DF";
pub const NUMBER: u32 = 87;
pub const NAME: &'static str = "Boost Energy";

} // verus!
