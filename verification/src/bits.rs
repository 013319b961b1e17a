//! Facts about single 64-bit limbs that tie the bitwise operations used by
//! the wide division to ordinary arithmetic.

use crate::u256::two_pow_64;
use vstd::arithmetic::div_mod::{lemma_fundamental_div_mod, lemma_mod_multiples_basic};
use vstd::prelude::*;

verus! {

/// `t` has exactly one bit set, so it is a power of two.
pub open spec fn is_single_bit(t: u64) -> bool {
    t != 0 && t & ((t - 1) as u64) == 0
}

/// A limb and its complement share no bit.
pub proof fn lemma_complement_shares_no_bit(n: u64, l: u64)
    by (bit_vector)
    requires
        n + l == 0xffff_ffff_ffff_ffff,
    ensures
        n & l == 0,
{
}

/// And-ing a nonzero limb with its two's complement leaves its lowest set
/// bit: a single bit, with nothing of the limb below it.
pub proof fn lemma_negation_isolates_lowest_bit(n: u64, l: u64)
    by (bit_vector)
    requires
        l != 0,
        n + l == 0x1_0000_0000_0000_0000,
    ensures
        n & l != 0,
        (n & l) & (((n & l) - 1) as u64) == 0,
        l & (((n & l) - 1) as u64) == 0,
        l & (n & l) == n & l,
{
}

/// A single bit is at most `2^63`: it divides `2^64` with an even quotient.
pub proof fn lemma_single_bit_divides_base(t: u64)
    requires
        is_single_bit(t),
    ensures
        two_pow_64() % (t as int) == 0,
        (two_pow_64() / (t as int)) % 2 == 0,
        two_pow_64() == (two_pow_64() / (t as int)) * t,
        2 <= two_pow_64() / (t as int) <= two_pow_64(),
{
    assert(0x1_0000_0000_0000_0000u128 % (t as u128) == 0 && (0x1_0000_0000_0000_0000u128 / (
    t as u128)) % 2 == 0 && 2 <= 0x1_0000_0000_0000_0000u128 / (t as u128)
        <= 0x1_0000_0000_0000_0000u128) by (bit_vector)
        requires
            t != 0,
            t & ((t - 1) as u64) == 0,
    ;
    lemma_fundamental_div_mod(two_pow_64(), t as int);
    assert(two_pow_64() == (two_pow_64() / (t as int)) * t) by (nonlinear_arith)
        requires
            two_pow_64() == (t as int) * (two_pow_64() / (t as int)) + two_pow_64() % (t as int),
            two_pow_64() % (t as int) == 0,
    ;
}

/// A limb with no bit below the single bit `t` is a multiple of `t`.
pub proof fn lemma_clear_below_bit_is_multiple(l: u64, t: u64)
    requires
        is_single_bit(t),
        l & ((t - 1) as u64) == 0,
    ensures
        (l as int) % (t as int) == 0,
    decreases t,
{
    if t != 1 {
        let half_l = l >> 1;
        let half_t = t >> 1;
        assert(half_t != 0 && half_t & ((half_t - 1) as u64) == 0 && half_t * 2 == t && half_l * 2
            == l && half_l & ((half_t - 1) as u64) == 0) by (bit_vector)
            requires
                t != 0,
                t != 1,
                t & ((t - 1) as u64) == 0,
                l & ((t - 1) as u64) == 0,
                half_l == l >> 1,
                half_t == t >> 1,
        ;
        lemma_clear_below_bit_is_multiple(half_l, half_t);
        let count = (half_l as int) / (half_t as int);
        lemma_fundamental_div_mod(half_l as int, half_t as int);
        assert((l as int) == count * (t as int)) by (nonlinear_arith)
            requires
                half_l as int == (half_t as int) * count,
                half_t * 2 == t,
                half_l * 2 == l,
        ;
        lemma_mod_multiples_basic(count, t as int);
    }
}

/// A limb whose bit `t` is set has an odd quotient by `t`.
pub proof fn lemma_quotient_by_set_bit_is_odd(l: u64, t: u64)
    by (bit_vector)
    requires
        t != 0,
        t & ((t - 1) as u64) == 0,
        l & t == t,
    ensures
        (l / t) % 2 == 1,
{
}

/// With `s = 2^64 / t` for a single bit `t`: a limb below `s` and a limb
/// that is a multiple of `s` share no bit, so their bitwise or is their sum.
pub proof fn lemma_or_of_disjoint_limbs(x: u64, y: u64, t: u64)
    by (bit_vector)
    requires
        t != 0,
        t & ((t - 1) as u64) == 0,
        x * t < 0x1_0000_0000_0000_0000,
        (y * t) % 0x1_0000_0000_0000_0000 == 0,
    ensures
        x | y == x + y,
{
}

/// The bitwise or with a zero limb is the other limb.
pub proof fn lemma_or_with_zero(x: u64)
    by (bit_vector)
    ensures
        x | 0 == x,
        0 | x == x,
{
}

/// The bitwise and with a zero limb is zero.
pub proof fn lemma_and_with_zero(x: u64)
    by (bit_vector)
    ensures
        x & 0 == 0,
{
}

/// The seed of the inverse: for an odd `e`, `3 e` with its second bit
/// flipped is an inverse of `e` modulo `16`. Only the low four bits matter.
pub proof fn lemma_seed_inverts_low_bits(z: u64, e: u64)
    requires
        e < 16,
        e % 2 == 1,
        z % 16 == (3 * e) % 16,
    ensures
        (((z ^ 2) % 16) * e) % 16 == 1,
{
    let tripled = (3 * e) as u64;
    let flipped: u64 = (z ^ 2) % 16;
    assert(0 <= flipped * e <= 15 * 15) by (nonlinear_arith)
        requires
            0 <= flipped <= 15,
            0 <= e <= 15,
    ;
    let product = (flipped * e) as u64;
    assert(product % 16 == 1) by (bit_vector)
        requires
            e < 16,
            e % 2 == 1,
            tripled == 3 * e,
            z % 16 == tripled % 16,
            flipped == (z ^ 2) % 16,
            product == flipped * e,
    ;
}

/// The exclusive or with a zero limb is the other limb.
pub proof fn lemma_xor_with_zero(x: u64)
    by (bit_vector)
    ensures
        x ^ 0 == x,
{
}

} // verus!
