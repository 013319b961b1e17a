//! The number theory behind the 512-by-256-bit division: how the high half
//! of a product is recovered from two remainders, why the division can be
//! made exact and shifted down, and why Newton's iteration yields the
//! inverse of an odd number modulo `2^256`.

use crate::u256::two_pow_256;
use vstd::arithmetic::div_mod::{
    lemma_fundamental_div_mod, lemma_fundamental_div_mod_converse, lemma_mod_multiples_basic,
    lemma_mod_multiples_vanish, lemma_mul_mod_noop_left, lemma_mul_mod_noop_right,
    lemma_small_mod, lemma_truncate_middle,
};
use vstd::prelude::*;

verus! {

/// The high 256 bits of a product, from its remainders by `2^256 - 1` and by
/// `2^256`: their difference modulo `2^256`, less one where the first
/// remainder is the smaller.
pub open spec fn high_from_remainders(by_max: int, low: int) -> int {
    ((by_max - low) % two_pow_256() - (if by_max < low {
        1int
    } else {
        0int
    })) % two_pow_256()
}

/// Since `2^256` is `1` modulo `2^256 - 1`, the remainder of `a b` by
/// `2^256 - 1` is the sum of its two halves reduced once, and the high half
/// can be read off it.
pub proof fn lemma_high_from_remainders(a: int, b: int)
    requires
        0 <= a < two_pow_256(),
        0 <= b < two_pow_256(),
    ensures
        high_from_remainders((a * b) % (two_pow_256() - 1), (a * b) % two_pow_256()) == (a * b)
            / two_pow_256(),
        0 <= (a * b) / two_pow_256() < two_pow_256() - 1,
        a * b == ((a * b) / two_pow_256()) * two_pow_256() + (a * b) % two_pow_256(),
{
    let m = two_pow_256();
    let product = a * b;
    let high = product / m;
    let low = product % m;
    assert(0 <= product <= (m - 1) * (m - 1)) by (nonlinear_arith)
        requires
            0 <= a <= m - 1,
            0 <= b <= m - 1,
            product == a * b,
    ;
    lemma_fundamental_div_mod(product, m);
    assert(0 <= high < m - 1);
    assert(product == (m - 1) * high + (high + low));
    lemma_mod_multiples_vanish(high, high + low, m - 1);
    let by_max = product % (m - 1);
    assert(by_max == (high + low) % (m - 1));
    if high + low < m - 1 {
        lemma_small_mod((high + low) as nat, (m - 1) as nat);
    } else {
        lemma_fundamental_div_mod_converse(high + low, m - 1, 1, high + low - (m - 1));
    }
}

/// Taking the remainder of `product` by `d` off its two halves leaves the
/// exact multiple `(product / d) d`, and with `d` above the high half the
/// quotient fits in 256 bits.
pub proof fn lemma_remove_remainder(product: int, d: int, high: int, low: int)
    requires
        product == high * two_pow_256() + low,
        0 <= low < two_pow_256(),
        1 <= high < d,
        d < two_pow_256(),
    ensures
        0 <= product / d < two_pow_256(),
        ({
            let rem = product % d;
            let high_exact = (high - (if rem > low {
                1int
            } else {
                0int
            })) % two_pow_256();
            let low_exact = (low - rem) % two_pow_256();
            &&& 0 <= high_exact < two_pow_256()
            &&& 0 <= low_exact < two_pow_256()
            &&& high_exact * two_pow_256() + low_exact == (product / d) * d
        }),
{
    let m = two_pow_256();
    let quotient = product / d;
    lemma_fundamental_div_mod(product, d);
    assert(0 <= quotient < m) by (nonlinear_arith)
        requires
            product == d * quotient + product % d,
            0 <= product % d < d,
            product < d * m,
            0 <= product,
            d >= 1,
    ;
    assert(d * quotient == quotient * d) by (nonlinear_arith);
}

/// The factor that moves the high half down when both halves are divided by
/// the power of two `twos`: `2^256 / twos`, which wraps to zero for `twos = 1`.
pub open spec fn flipped(twos: int) -> int {
    (((0 - twos) % two_pow_256()) / twos + 1) % two_pow_256()
}

/// Dividing an exact multiple `q d` of `d`, held in two halves, by a divisor
/// `twos` of both `d` and `2^256`: the low half shrinks below
/// `span = 2^256 / twos`, the high half is carried in as a multiple of
/// `span`, and the two add up to `q (d / twos)` modulo `2^256`.
pub proof fn lemma_shift_out_twos(
    high: int,
    low: int,
    quotient: int,
    d: int,
    twos: int,
    span: int,
)
    requires
        0 <= high < two_pow_256(),
        0 <= low < two_pow_256(),
        0 <= quotient,
        high * two_pow_256() + low == quotient * d,
        1 <= twos < two_pow_256(),
        d >= 1,
        d % twos == 0,
        two_pow_256() == twos * span,
    ensures
        0 <= low / twos < span,
        ((high * flipped(twos)) % two_pow_256()) % span == 0,
        (high * flipped(twos)) % two_pow_256() + low / twos == (quotient * (d / twos))
            % two_pow_256(),
{
    let m = two_pow_256();
    let odd = d / twos;
    lemma_fundamental_div_mod(d, twos);
    assert(span >= 1) by (nonlinear_arith)
        requires
            twos >= 1,
            twos * span > 0,
    ;
    // The factor is `span`, reduced.
    assert((0 - twos) % m == m - twos);
    assert(m - twos == twos * (span - 1) + 0) by (nonlinear_arith)
        requires
            m == twos * span,
    ;
    lemma_fundamental_div_mod_converse(m - twos, twos, span - 1, 0);
    assert(flipped(twos) == span % m);
    // The low half is a multiple of `twos`.
    let shifted = quotient * odd - high * span;
    assert(low == shifted * twos + 0) by (nonlinear_arith)
        requires
            high * m + low == quotient * d,
            d == twos * odd,
            m == twos * span,
            shifted == quotient * odd - high * span,
    ;
    lemma_fundamental_div_mod_converse(low, twos, shifted, 0);
    assert(low / twos == shifted);
    assert(0 <= shifted < span) by (nonlinear_arith)
        requires
            low == shifted * twos,
            0 <= low < twos * span,
            twos >= 1,
    ;
    // The high half, carried in.
    let carried = (high * flipped(twos)) % m;
    assert(carried == span * (high % twos) && carried % span == 0) by {
        if twos == 1 {
            assert(span == m);
            assert(flipped(twos) == 0);
            assert(high * 0 == 0);
            assert(high % 1 == 0);
            assert(span * 0 == 0);
        } else {
            assert(span < m) by (nonlinear_arith)
                requires
                    twos >= 2,
                    span >= 1,
                    m == twos * span,
            ;
            assert(flipped(twos) == span);
            lemma_truncate_middle(high, span, twos);
            assert(high * span == span * high) by (nonlinear_arith);
            assert(span * twos == m) by (nonlinear_arith)
                requires
                    m == twos * span,
            ;
        }
        lemma_mod_multiples_basic(high % twos, span);
        assert(span * (high % twos) == (high % twos) * span) by (nonlinear_arith);
    }
    let wraps = high / twos;
    lemma_fundamental_div_mod(high, twos);
    assert(quotient * odd == m * wraps + (carried + shifted)) by (nonlinear_arith)
        requires
            shifted == quotient * odd - high * span,
            high == twos * wraps + high % twos,
            carried == span * (high % twos),
            m == twos * span,
    ;
    assert(carried + shifted < m) by (nonlinear_arith)
        requires
            carried == span * (high % twos),
            0 <= high % twos < twos,
            0 <= shifted < span,
            m == twos * span,
    ;
    assert(0 <= carried) by (nonlinear_arith)
        requires
            carried == span * (high % twos),
            0 <= high % twos,
            span >= 1,
    ;
    lemma_fundamental_div_mod_converse(quotient * odd, m, wraps, carried + shifted);
}

/// One step of Newton's iteration for the inverse of `d` modulo `2^256`.
pub open spec fn newton_step(d: int, inv: int) -> int {
    (inv * ((2 - (d * inv) % two_pow_256()) % two_pow_256())) % two_pow_256()
}

/// Hensel lifting: a step of Newton's iteration turns an inverse of `d`
/// modulo `m` into one modulo `m^2`, as long as `m^2` divides `2^256`.
pub proof fn lemma_newton_step_doubles(d: int, inv: int, m: int)
    requires
        m >= 2,
        two_pow_256() % (m * m) == 0,
        (d * inv) % m == 1,
    ensures
        (d * newton_step(d, inv)) % (m * m) == 1,
{
    let big = two_pow_256();
    let square = m * m;
    assert(square >= 4) by (nonlinear_arith)
        requires
            m >= 2,
            square == m * m,
    ;
    let x = d * inv;
    let k = x / m;
    lemma_fundamental_div_mod(x, m);
    let c = big / square;
    lemma_fundamental_div_mod(big, square);
    let reduced = x % big;
    let w0 = x / big;
    lemma_fundamental_div_mod(x, big);
    let factor = (2 - reduced) % big;
    let w1 = (2 - reduced) / big;
    lemma_fundamental_div_mod(2 - reduced, big);
    let next = (inv * factor) % big;
    let w2 = (inv * factor) / big;
    lemma_fundamental_div_mod(inv * factor, big);
    assert(next == newton_step(d, inv));
    // factor = 2 - x + big (w0 - w1), next = inv factor - big w2.
    let e = w0 - w1;
    assert(factor == 2 - x + big * e);
    assert(d * next == d * (inv * factor) - big * (d * w2)) by (nonlinear_arith)
        requires
            inv * factor == big * w2 + next,
    ;
    assert(d * (inv * factor) == x * factor) by (nonlinear_arith)
        requires
            x == d * inv,
    ;
    assert(x * factor == x * (2 - x) + big * (x * e)) by (nonlinear_arith)
        requires
            factor == 2 - x + big * e,
    ;
    let lift = x * e - d * w2;
    assert(d * next == x * (2 - x) + big * lift);
    assert(x * (2 - x) == 1 - square * (k * k)) by (nonlinear_arith)
        requires
            x == m * k + 1,
            square == m * m,
    ;
    let q = c * lift - k * k;
    assert(d * next == q * square + 1) by (nonlinear_arith)
        requires
            d * next == x * (2 - x) + big * lift,
            x * (2 - x) == 1 - square * (k * k),
            big == square * c,
            q == c * lift - k * k,
    ;
    lemma_fundamental_div_mod_converse(d * next, square, q, 1);
}

/// Six steps of Newton's iteration, one after the other.
pub open spec fn six_newton_steps(d: int, seed: int) -> int {
    newton_step(
        d,
        newton_step(d, newton_step(d, newton_step(d, newton_step(d, newton_step(d, seed))))),
    )
}

/// Six steps take an inverse modulo `2^4` to one modulo `2^256`: the number
/// of right bits goes 4, 8, 16, 32, 64, 128, 256.
pub proof fn lemma_six_steps_invert(d: int, seed: int)
    requires
        (d * seed) % 16 == 1,
    ensures
        (d * six_newton_steps(d, seed)) % two_pow_256() == 1,
{
    let inv8 = newton_step(d, seed);
    assert((d * inv8) % 0x100 == 1) by {
        assert(0x10int * 0x10int == 0x100int);
        lemma_newton_step_doubles(d, seed, 0x10);
    }
    let inv16 = newton_step(d, inv8);
    assert((d * inv16) % 0x1_0000 == 1) by {
        assert(0x100int * 0x100int == 0x1_0000int);
        lemma_newton_step_doubles(d, inv8, 0x100);
    }
    let inv32 = newton_step(d, inv16);
    assert((d * inv32) % 0x1_0000_0000 == 1) by {
        assert(0x1_0000int * 0x1_0000int == 0x1_0000_0000int);
        lemma_newton_step_doubles(d, inv16, 0x1_0000);
    }
    let inv64 = newton_step(d, inv32);
    assert((d * inv64) % 0x1_0000_0000_0000_0000int == 1) by {
        assert(0x1_0000_0000int * 0x1_0000_0000int == 0x1_0000_0000_0000_0000int);
        lemma_newton_step_doubles(d, inv32, 0x1_0000_0000);
    }
    let inv128 = newton_step(d, inv64);
    assert((d * inv128) % 0x1_0000_0000_0000_0000_0000_0000_0000_0000int == 1) by {
        assert(0x1_0000_0000_0000_0000int * 0x1_0000_0000_0000_0000int
            == 0x1_0000_0000_0000_0000_0000_0000_0000_0000int);
        lemma_newton_step_doubles(d, inv64, 0x1_0000_0000_0000_0000int);
    }
    let inv256 = newton_step(d, inv128);
    assert((d * inv256) % two_pow_256() == 1) by {
        assert(0x1_0000_0000_0000_0000_0000_0000_0000_0000int
            * 0x1_0000_0000_0000_0000_0000_0000_0000_0000int == two_pow_256());
        lemma_newton_step_doubles(d, inv128, 0x1_0000_0000_0000_0000_0000_0000_0000_0000int);
    }
}

/// Multiplying the reduced exact multiple `q odd` by the inverse of `odd`
/// modulo `2^256` gives back `q`.
pub proof fn lemma_multiply_by_inverse(quotient: int, odd: int, inv: int)
    requires
        0 <= quotient < two_pow_256(),
        (odd * inv) % two_pow_256() == 1,
    ensures
        (((quotient * odd) % two_pow_256()) * inv) % two_pow_256() == quotient,
{
    let m = two_pow_256();
    lemma_mul_mod_noop_left(quotient * odd, inv, m);
    assert((quotient * odd) * inv == quotient * (odd * inv)) by (nonlinear_arith);
    lemma_mul_mod_noop_right(quotient, odd * inv, m);
    assert(quotient * 1 == quotient);
    lemma_small_mod(quotient as nat, m as nat);
}

} // verus!
