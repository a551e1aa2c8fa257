//! Mr. Stone's Project - Dragon Frontiers #77
use vstd::prelude::*;

verus! {

pub const SET: &'static str = "DF";
pub const NUMBER: u32 = 77;
pub const NAME: &'static str = "Mr. Stone's Project";

} // verus!
