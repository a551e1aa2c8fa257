//! Holon Energy WP - Dragon Frontiers #86
use vstd::prelude::*;

verus! {

pub const SET: &'static str = "DF";
pub const NUMBER: u32 = 86;
pub const NAME: &'static str = "Holon Energy WP";

} // verus!
