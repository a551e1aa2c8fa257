//! Nidorino δ - Dragon Frontiers #35
use vstd::prelude::*;

verus! {

pub const SET: &'static str = "DF";
pub const NUMBER: u32 = 35;
pub const NAME: &'static str = "Nidorino δ";

pub const ATTACK_1_NAME: &'static str = "Rage";
pub const ATTACK_1_DAMAGE: u32 = 10;
pub const ATTACK_1_TEXT: &'static str = "Does 10 damage plus 10 more damage for each damage counter on Nidorino.";

pub const ATTACK_2_NAME: &'static str = "Horn Drill";
pub const ATTACK_2_DAMAGE: u32 = 30;

/// The value `v` takes when it is reinterpreted as a 32-bit signed integer
/// (values above `i32::MAX` wrap around).
pub open spec fn as_i32_wrapped(v: int) -> int {
    if v <= i32::MAX { v } else { v - 0x1_0000_0000 }
}

/// Rage: 10 damage plus 10 more for each damage counter on Nidorino.
/// The product is computed in `u32` and reinterpreted as `i32`, so for more
/// than 214748364 counters the value wraps; the inputs on which the
/// computation would overflow are excluded.
pub fn rage_per_counter_damage(damage_counters: u32) -> (r: i32)
    requires
        10 * damage_counters <= u32::MAX,
        10 + as_i32_wrapped(10 * damage_counters) <= i32::MAX,
    ensures
        r == 10 + as_i32_wrapped(10 * damage_counters),
        damage_counters <= 214748363 ==> r == 10 + 10 * damage_counters,
{
    let product: u32 = 10 * damage_counters;
    let wrapped: i32 = product as i32;
    assert(wrapped == as_i32_wrapped(product as int)) by (bit_vector)
        requires
            wrapped == product as i32,
    ;
    10 + wrapped
}

} // verus!
