//! Island Hermit - Dragon Frontiers #76
use vstd::prelude::*;

verus! {

pub const SET: &'static str = "DF";
pub const NUMBER: u32 = 76;
pub const NAME: &'static str = "Island Hermit";

} // verus!
