//! Integer side of the tick/price conversion: alignment of a tick to a
//! pool's spacing grid and the signed gap between two token decimal counts.

use vstd::arithmetic::div_mod::{
    lemma_div_pos_is_pos, lemma_fundamental_div_mod, lemma_mod_bound, lemma_mod_multiples_basic,
};
use vstd::prelude::*;

verus! {

/// The signed gap between the decimal counts of a pool's two tokens: the
/// power of ten by which a raw price is scaled. It is negative where token0
/// has the more digits.
pub fn decimals_difference(token0_decimals: u8, token1_decimals: u8) -> (diff: i32)
    ensures
        diff == token1_decimals - token0_decimals,
{
    token1_decimals as i32 - token0_decimals as i32
}

/// Remainder of `tick` by `spacing` with the sign of `tick` (truncating
/// division), for a positive `spacing`.
pub open spec fn truncating_rem(tick: int, spacing: int) -> int {
    if tick >= 0 {
        tick % spacing
    } else {
        -((-tick) % spacing)
    }
}

/// The multiple of `spacing` reached from `tick` by dropping the truncating
/// remainder: ticks are pulled toward zero, not toward the lower multiple.
pub open spec fn aligned_tick(tick: int, spacing: int) -> int {
    tick - truncating_rem(tick, spacing)
}

/// Aligns `tick` to the pool's grid of multiples of `spacing`.
///
/// The result is `tick` minus its truncating remainder, so a negative tick
/// moves up toward zero: `-105` on a grid of `60` gives `-60`.
pub fn align_to_pool_tick_spacing(tick: i32, spacing: i32) -> (aligned: i32)
    requires
        spacing > 0,
    ensures
        aligned == aligned_tick(tick as int, spacing as int),
        aligned as int % spacing as int == 0,
        -(spacing as int) < tick - aligned < spacing,
        tick >= 0 ==> 0 <= aligned <= tick,
        tick <= 0 ==> tick <= aligned <= 0,
{
    proof {
        lemma_aligned_tick_on_grid(tick as int, spacing as int);
    }
    tick - (tick % spacing)
}

/// An aligned tick is a multiple of the spacing, lies strictly less than one
/// spacing away from the tick it came from, and never lies farther from zero.
pub proof fn lemma_aligned_tick_on_grid(tick: int, spacing: int)
    requires
        spacing > 0,
    ensures
        aligned_tick(tick, spacing) % spacing == 0,
        -spacing < tick - aligned_tick(tick, spacing) < spacing,
        tick >= 0 ==> 0 <= aligned_tick(tick, spacing) <= tick,
        tick <= 0 ==> tick <= aligned_tick(tick, spacing) <= 0,
{
    let magnitude = if tick >= 0 { tick } else { -tick };
    let quotient = magnitude / spacing;
    lemma_fundamental_div_mod(magnitude, spacing);
    lemma_mod_bound(magnitude, spacing);
    lemma_div_pos_is_pos(magnitude, spacing);
    assert(0 <= spacing * quotient) by (nonlinear_arith)
        requires
            0 <= quotient,
            0 < spacing,
    ;
    if tick >= 0 {
        assert(aligned_tick(tick, spacing) == spacing * quotient);
        lemma_mod_multiples_basic(quotient, spacing);
        assert(spacing * quotient == quotient * spacing) by (nonlinear_arith);
    } else {
        assert(aligned_tick(tick, spacing) == -(spacing * quotient));
        assert(-(spacing * quotient) == (-quotient) * spacing) by (nonlinear_arith);
        lemma_mod_multiples_basic(-quotient, spacing);
    }
}

} // verus!
