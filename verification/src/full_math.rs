//! Exact `floor(a b / d)` and `ceil(a b / d)` on 256-bit operands, through a
//! 512-bit intermediate product that is never stored in one piece.

use crate::error::ArithmeticError;
use crate::limbs::{lemma_inverse_seed, lemma_lowest_set_bit, lemma_or_is_sum, limb_weight};
use crate::u256::{lemma_value_in_range, two_pow_256, two_pow_64, U256};
use crate::wide::{
    flipped, high_from_remainders, lemma_high_from_remainders, lemma_multiply_by_inverse,
    lemma_remove_remainder, lemma_shift_out_twos, lemma_six_steps_invert, newton_step,
};
use vstd::arithmetic::div_mod::{
    lemma_fundamental_div_mod, lemma_fundamental_div_mod_converse, lemma_mod_bound,
};
use vstd::prelude::*;

verus! {

/// What `mul_div` returns on the numbers `a`, `b` and `d`: the quotient
/// `floor(a b / d)` where `d` is not zero and the quotient fits in 256 bits,
/// and otherwise the error that tells whether the product itself fits.
pub open spec fn mul_div_spec(a: int, b: int, d: int) -> Result<int, ArithmeticError> {
    if d != 0 && (a * b) / d < two_pow_256() {
        Ok((a * b) / d)
    } else if a * b < two_pow_256() {
        Err(ArithmeticError::DenominatorIsZero)
    } else {
        Err(ArithmeticError::DenominatorIsLteProdOne)
    }
}

/// What `mul_div_rounding_up` returns: the error of `mul_div`, or its
/// quotient, raised by one where the division leaves a remainder, unless
/// that passes the largest 256-bit value.
pub open spec fn mul_div_rounding_up_spec(a: int, b: int, d: int) -> Result<int, ArithmeticError> {
    match mul_div_spec(a, b, d) {
        Err(e) => Err(e),
        Ok(q) => if (a * b) % d == 0 {
            Ok(q)
        } else if q + 1 < two_pow_256() {
            Ok(q + 1)
        } else {
            Err(ArithmeticError::ResultOverflow)
        },
    }
}

/// The exact quotient `p / d` rounded up to an integer, for `d > 0`.
pub open spec fn ceil_div(p: int, d: int) -> int {
    (p + d - 1) / d
}

/// A computed result agrees with the one expected of the numbers: the same
/// error, or a value that stands for the expected number.
pub open spec fn agrees(
    computed: Result<U256, ArithmeticError>,
    expected: Result<int, ArithmeticError>,
) -> bool {
    match expected {
        Ok(q) => computed is Ok && computed->Ok_0@ == q,
        Err(e) => computed == Err::<U256, ArithmeticError>(e),
    }
}

/// The two halves of the full product `a b`: high 256 bits first.
fn full_product(a: U256, b: U256) -> (halves: (U256, U256))
    ensures
        halves.0@ == (a@ * b@) / two_pow_256(),
        halves.1@ == (a@ * b@) % two_pow_256(),
{
    // The product modulo 2^256 - 1 and modulo 2^256 determine both halves.
    let mm = a.mul_mod(b, U256::max_value());
    let prod_0 = a.wrapping_mul(b);
    let borrow = if mm.lt(prod_0) {
        U256::from_u64(1)
    } else {
        U256::zero()
    };
    let prod_1 = mm.wrapping_sub(prod_0).wrapping_sub(borrow);
    proof {
        lemma_value_in_range(a);
        lemma_value_in_range(b);
        lemma_high_from_remainders(a@, b@);
        assert(prod_1@ == high_from_remainders(mm@, prod_0@));
    }
    (prod_1, prod_0)
}

/// One step of Newton's iteration towards the inverse of `d` modulo `2^256`.
fn refine_inverse(d: U256, inv: U256) -> (next: U256)
    ensures
        next@ == newton_step(d@, inv@),
{
    inv.wrapping_mul(U256::from_u64(2).wrapping_sub(d.wrapping_mul(inv)))
}

/// The inverse of an odd number modulo `2^256`: a seed that is right for
/// four bits, and six steps that each double the number of right bits.
fn invert_odd(d: U256) -> (inv: U256)
    requires
        d@ % 2 == 1,
    ensures
        (d@ * inv@) % two_pow_256() == 1,
{
    let two = U256::from_u64(2);
    let tripled = U256::from_u64(3).wrapping_mul(d);
    let inv = tripled.bitxor(two);
    proof {
        lemma_inverse_seed(d, tripled, two, inv);
        lemma_six_steps_invert(d@, inv@);
    }
    let inv = refine_inverse(d, inv);  // inverse mod 2^8
    let inv = refine_inverse(d, inv);  // inverse mod 2^16
    let inv = refine_inverse(d, inv);  // inverse mod 2^32
    let inv = refine_inverse(d, inv);  // inverse mod 2^64
    let inv = refine_inverse(d, inv);  // inverse mod 2^128
    let inv = refine_inverse(d, inv);  // inverse mod 2^256
    inv
}

/// The 512-by-256-bit division: the quotient of a product that does not fit
/// in 256 bits by a denominator above its high half.
fn divide_wide(a: U256, b: U256, denominator: U256, prod_1: U256, prod_0: U256) -> (quotient: U256)
    requires
        prod_1@ == (a@ * b@) / two_pow_256(),
        prod_0@ == (a@ * b@) % two_pow_256(),
        1 <= prod_1@ < denominator@,
    ensures
        quotient@ == (a@ * b@) / denominator@,
{
    let ghost product = a@ * b@;
    let ghost exact = product / denominator@;
    proof {
        lemma_value_in_range(denominator);
        lemma_value_in_range(prod_0);
        lemma_fundamental_div_mod(product, two_pow_256());
        lemma_remove_remainder(product, denominator@, prod_1@, prod_0@);
    }
    // Make the division exact by taking the remainder off both halves.
    let remainder = a.mul_mod(b, denominator);
    let borrow = if prod_0.lt(remainder) {
        U256::from_u64(1)
    } else {
        U256::zero()
    };
    let prod_1 = prod_1.wrapping_sub(borrow);
    let prod_0 = prod_0.wrapping_sub(remainder);
    assert(prod_1@ * two_pow_256() + prod_0@ == exact * denominator@);

    // The largest power of two that divides the denominator.
    let negated = U256::zero().wrapping_sub(denominator);
    let twos = negated.bitand(denominator);
    let ghost bit = lemma_lowest_set_bit(denominator, negated, twos);
    let ghost span = (two_pow_64() / (bit.0 as int)) * limb_weight(3 - bit.1);
    proof {
        lemma_value_in_range(twos);
        lemma_value_in_range(prod_1);
        lemma_value_in_range(prod_0);
        lemma_shift_out_twos(prod_1@, prod_0@, exact, denominator@, twos@, span);
    }
    // Divide the denominator and both halves by it; the bits that leave the
    // high half enter the low half from above.
    let odd = denominator.wrapping_div(twos);
    let shifted = prod_0.wrapping_div(twos);
    let flip = U256::zero().wrapping_sub(twos).wrapping_div(twos).wrapping_add(U256::from_u64(1));
    assert(flip@ == flipped(twos@));
    let carried = prod_1.wrapping_mul(flip);
    let prod_0 = shifted.bitor(carried);
    proof {
        lemma_or_is_sum(shifted, carried, prod_0, bit.0, 3 - bit.1);
        assert(prod_0@ == (exact * odd@) % two_pow_256());
    }
    // The denominator is odd now: divide by multiplying with its inverse.
    let inv = invert_odd(odd);
    proof {
        lemma_multiply_by_inverse(exact, odd@, inv@);
    }
    prod_0.wrapping_mul(inv)
}

/// Computes `floor(a b / denominator)` without losing the bits of the
/// product that lie above the 256th.
///
/// The call succeeds exactly when the denominator is not zero and the
/// quotient fits in 256 bits. Where it fails, the error is
/// `DenominatorIsZero` if the product fits in 256 bits (the denominator is
/// then zero), and `DenominatorIsLteProdOne` if it does not.
pub fn mul_div(a: U256, b: U256, denominator: U256) -> (result: Result<U256, ArithmeticError>)
    ensures
        agrees(result, mul_div_spec(a@, b@, denominator@)),
{
    let (prod_1, prod_0) = full_product(a, b);
    proof {
        lemma_value_in_range(a);
        lemma_value_in_range(b);
        lemma_value_in_range(denominator);
        lemma_mul_div_cases(a@, b@, denominator@);
    }
    // The product fits in 256 bits: an ordinary division.
    if prod_1.eq(&U256::zero()) {
        if denominator.eq(&U256::zero()) {
            return Err(ArithmeticError::DenominatorIsZero);
        }
        return Ok(prod_0.wrapping_div(denominator));
    }
    // Makes sure that the quotient fits in 256 bits, and that the
    // denominator is not zero.
    if !prod_1.lt(denominator) {
        return Err(ArithmeticError::DenominatorIsLteProdOne);
    }
    Ok(divide_wide(a, b, denominator, prod_1, prod_0))
}

/// Computes `ceil(a b / denominator)`: the quotient of `mul_div`, raised by
/// one where the division leaves a remainder.
///
/// Fails as `mul_div` does, and with `ResultOverflow` where the quotient is
/// the largest 256-bit value and would have to be raised.
pub fn mul_div_rounding_up(a: U256, b: U256, denominator: U256) -> (result: Result<
    U256,
    ArithmeticError,
>)
    ensures
        agrees(result, mul_div_rounding_up_spec(a@, b@, denominator@)),
{
    match mul_div(a, b, denominator) {
        Err(e) => Err(e),
        Ok(floor) => {
            proof {
                lemma_value_in_range(floor);
                lemma_mod_bound(a@ * b@, denominator@);
            }
            if U256::zero().lt(a.mul_mod(b, denominator)) {
                if floor.eq(&U256::max_value()) {
                    Err(ArithmeticError::ResultOverflow)
                } else {
                    Ok(floor.wrapping_add(U256::from_u64(1)))
                }
            } else {
                Ok(floor)
            }
        },
    }
}

/// How the outcome of `mul_div` shows in the two halves of the product:
/// with `high = a b / 2^256`, a product that fits (`high = 0`) is divided
/// unless the denominator is zero, and one that does not fit is divided
/// exactly when the denominator is above `high`.
pub proof fn lemma_mul_div_cases(a: int, b: int, d: int)
    requires
        0 <= a < two_pow_256(),
        0 <= b < two_pow_256(),
        0 <= d < two_pow_256(),
    ensures
        (a * b) / two_pow_256() == 0 <==> a * b < two_pow_256(),
        a * b < two_pow_256() && d != 0 ==> mul_div_spec(a, b, d) == Ok::<int, ArithmeticError>(
            (a * b) / d,
        ),
        a * b >= two_pow_256() && d > (a * b) / two_pow_256() ==> mul_div_spec(a, b, d) == Ok::<
            int,
            ArithmeticError,
        >((a * b) / d),
        a * b >= two_pow_256() && d <= (a * b) / two_pow_256() ==> mul_div_spec(a, b, d) == Err::<
            int,
            ArithmeticError,
        >(ArithmeticError::DenominatorIsLteProdOne),
        a * b < two_pow_256() && d == 0 ==> mul_div_spec(a, b, d) == Err::<int, ArithmeticError>(
            ArithmeticError::DenominatorIsZero,
        ),
{
    let m = two_pow_256();
    let product = a * b;
    let high = product / m;
    assert(0 <= product) by (nonlinear_arith)
        requires
            0 <= a,
            0 <= b,
            product == a * b,
    ;
    lemma_fundamental_div_mod(product, m);
    if d != 0 {
        let quotient = product / d;
        lemma_fundamental_div_mod(product, d);
        lemma_mod_bound(product, d);
        if product < m {
            assert(quotient < m) by (nonlinear_arith)
                requires
                    product == d * quotient + product % d,
                    0 <= product % d,
                    d >= 1,
                    product < m,
                    m > 0,
            ;
        } else if d > high {
            assert(quotient < m) by (nonlinear_arith)
                requires
                    product == d * quotient + product % d,
                    0 <= product % d,
                    d >= 1,
                    product < d * m,
            ;
        } else {
            assert(quotient >= m) by (nonlinear_arith)
                requires
                    product == d * quotient + product % d,
                    product % d < d,
                    d >= 1,
                    product >= d * m,
            ;
        }
    }
}

/// For a positive `d`, rounding `p / d` up adds one to the floor exactly
/// when the division leaves a remainder, and gives the least `c` with
/// `c d >= p`.
pub proof fn lemma_ceil_div(p: int, d: int)
    requires
        d > 0,
    ensures
        ceil_div(p, d) == if p % d == 0 {
            p / d
        } else {
            p / d + 1
        },
        (ceil_div(p, d) - 1) * d < p <= ceil_div(p, d) * d,
{
    let q = p / d;
    let r = p % d;
    lemma_fundamental_div_mod(p, d);
    lemma_mod_bound(p, d);
    if r == 0 {
        lemma_fundamental_div_mod_converse(p + d - 1, d, q, d - 1);
        assert((q - 1) * d < p <= q * d) by (nonlinear_arith)
            requires
                p == d * q,
                d > 0,
        ;
    } else {
        assert(p + d - 1 == (q + 1) * d + (r - 1)) by (nonlinear_arith)
            requires
                p == d * q + r,
        ;
        lemma_fundamental_div_mod_converse(p + d - 1, d, q + 1, r - 1);
        assert(q * d < p <= (q + 1) * d) by (nonlinear_arith)
            requires
                p == d * q + r,
                0 < r < d,
        ;
    }
}

/// With a nonzero denominator and a product that fits in 256 bits,
/// `mul_div` succeeds with the floor of the exact quotient: the greatest `q`
/// with `q d <= a b`.
pub proof fn lemma_mul_div_is_floor(a: int, b: int, d: int)
    requires
        0 <= a < two_pow_256(),
        0 <= b < two_pow_256(),
        0 < d < two_pow_256(),
        a * b < two_pow_256(),
    ensures
        mul_div_spec(a, b, d) == Ok::<int, ArithmeticError>((a * b) / d),
        ((a * b) / d) * d <= a * b < ((a * b) / d + 1) * d,
{
    lemma_mul_div_cases(a, b, d);
    let p = a * b;
    let q = p / d;
    lemma_fundamental_div_mod(p, d);
    lemma_mod_bound(p, d);
    assert(q * d <= p < (q + 1) * d) by (nonlinear_arith)
        requires
            p == d * q + p % d,
            0 <= p % d < d,
    ;
}

/// With a nonzero denominator and a product that fits in 256 bits,
/// `mul_div_rounding_up` succeeds with the exact quotient rounded up: the
/// least `c` with `c d >= a b`.
pub proof fn lemma_mul_div_rounding_up_is_ceiling(a: int, b: int, d: int)
    requires
        0 <= a < two_pow_256(),
        0 <= b < two_pow_256(),
        0 < d < two_pow_256(),
        a * b < two_pow_256(),
    ensures
        mul_div_rounding_up_spec(a, b, d) == Ok::<int, ArithmeticError>(ceil_div(a * b, d)),
        (ceil_div(a * b, d) - 1) * d < a * b <= ceil_div(a * b, d) * d,
{
    lemma_mul_div_is_floor(a, b, d);
    lemma_ceil_div(a * b, d);
    let p = a * b;
    let q = p / d;
    lemma_fundamental_div_mod(p, d);
    lemma_mod_bound(p, d);
    if p % d != 0 {
        // The floor lies below the product, which fits.
        let m = two_pow_256();
        assert(q + 1 < m) by (nonlinear_arith)
            requires
                p < m,
                m > 0,
                p == d * q + p % d,
                d >= 1,
                0 < p % d,
        ;
    }
}

/// Whatever the product, `mul_div_rounding_up` succeeds exactly when the
/// denominator is not zero and the quotient, rounded up, fits in 256 bits;
/// it then returns that rounded quotient.
pub proof fn lemma_mul_div_rounding_up_succeeds_iff(a: int, b: int, d: int)
    requires
        0 <= a < two_pow_256(),
        0 <= b < two_pow_256(),
        0 <= d < two_pow_256(),
    ensures
        mul_div_rounding_up_spec(a, b, d) is Ok <==> d != 0 && ceil_div(a * b, d) < two_pow_256(),
        mul_div_rounding_up_spec(a, b, d) is Ok ==> mul_div_rounding_up_spec(a, b, d)->Ok_0
            == ceil_div(a * b, d),
{
    if d != 0 {
        lemma_ceil_div(a * b, d);
    }
}

/// A zero denominator always fails: with `DenominatorIsZero` where the
/// product fits in 256 bits, and with `DenominatorIsLteProdOne` where it
/// does not.
pub proof fn lemma_mul_div_by_zero(a: int, b: int)
    requires
        0 <= a < two_pow_256(),
        0 <= b < two_pow_256(),
    ensures
        a * b < two_pow_256() ==> mul_div_spec(a, b, 0) == Err::<int, ArithmeticError>(
            ArithmeticError::DenominatorIsZero,
        ),
        a * b >= two_pow_256() ==> mul_div_spec(a, b, 0) == Err::<int, ArithmeticError>(
            ArithmeticError::DenominatorIsLteProdOne,
        ),
        mul_div_rounding_up_spec(a, b, 0) == mul_div_spec(a, b, 0),
{
}

} // verus!
