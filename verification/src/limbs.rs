//! Facts about whole 256-bit values that have to be read off their limbs:
//! what the lowest set bit of a value is, and when a bitwise or is a sum.

use crate::bits::{
    is_single_bit, lemma_and_with_zero, lemma_clear_below_bit_is_multiple,
    lemma_complement_shares_no_bit, lemma_negation_isolates_lowest_bit,
    lemma_or_of_disjoint_limbs, lemma_or_with_zero, lemma_quotient_by_set_bit_is_odd,
    lemma_seed_inverts_low_bits, lemma_single_bit_divides_base,
};
use crate::u256::{two_pow_256, two_pow_64, U256};
use vstd::arithmetic::div_mod::{
    lemma_fundamental_div_mod, lemma_fundamental_div_mod_converse, lemma_mod_mod,
    lemma_mod_multiples_basic, lemma_mod_multiples_vanish, lemma_mul_mod_noop_general,
};
use vstd::prelude::*;

verus! {

/// The weight `2^(64 i)` of limb `i`, and `2^256` past the last limb.
pub open spec fn limb_weight(i: int) -> int {
    if i <= 0 {
        1
    } else if i == 1 {
        two_pow_64()
    } else if i == 2 {
        two_pow_64() * two_pow_64()
    } else if i == 3 {
        two_pow_64() * two_pow_64() * two_pow_64()
    } else {
        two_pow_256()
    }
}

/// A number written as `lo + w (mid + 2^64 hi)` that lies below `s w`, where
/// `s t = 2^64`, has nothing above `mid`, and `mid t` stays below `2^64`.
proof fn lemma_below_scaled_weight(lo: int, mid: int, hi: int, w: int, s: int, t: int)
    requires
        0 <= lo,
        0 <= mid < two_pow_64(),
        0 <= hi,
        w >= 1,
        s >= 1,
        t >= 1,
        s * t == two_pow_64(),
        lo + w * (mid + two_pow_64() * hi) < s * w,
    ensures
        hi == 0,
        mid * t < two_pow_64(),
{
    let top = mid + two_pow_64() * hi;
    assert(top < s) by (nonlinear_arith)
        requires
            0 <= lo,
            w >= 1,
            lo + w * top < s * w,
    ;
    assert(s <= two_pow_64()) by (nonlinear_arith)
        requires
            s >= 1,
            t >= 1,
            s * t == two_pow_64(),
    ;
    assert(mid * t < s * t) by (nonlinear_arith)
        requires
            0 <= mid < s,
            t >= 1,
    ;
}

/// A multiple of `s w` written as `lo + w (mid + 2^64 hi)` with `lo < w`,
/// where `s t = 2^64`, has `lo = 0`, and `mid t` is a multiple of `2^64`.
proof fn lemma_multiple_of_scaled_weight(lo: int, mid: int, hi: int, w: int, s: int, t: int)
    requires
        0 <= lo < w,
        0 <= mid < two_pow_64(),
        0 <= hi,
        s >= 1,
        t >= 1,
        s * t == two_pow_64(),
        (lo + w * (mid + two_pow_64() * hi)) % (s * w) == 0,
    ensures
        lo == 0,
        (mid * t) % two_pow_64() == 0,
{
    let value = lo + w * (mid + two_pow_64() * hi);
    let top = mid + two_pow_64() * hi;
    assert(s * w >= 1) by (nonlinear_arith)
        requires
            s >= 1,
            w >= 1,
    ;
    let count = value / (s * w);
    lemma_fundamental_div_mod(value, s * w);
    assert(lo == w * (count * s - top)) by (nonlinear_arith)
        requires
            lo + w * top == (s * w) * count,
    ;
    assert(count * s - top == 0) by (nonlinear_arith)
        requires
            0 <= lo < w,
            lo == w * (count * s - top),
    ;
    assert(lo == 0);
    assert(mid * t == (count - hi * t) * two_pow_64()) by (nonlinear_arith)
        requires
            count * s == mid + two_pow_64() * hi,
            s * t == two_pow_64(),
    ;
    lemma_mod_multiples_basic(count - hi * t, two_pow_64());
}

/// With `s = 2^64 / t` for a single bit `t`, and `j` a limb index: if `x`
/// lies below `s 2^(64 j)` and `y` is a multiple of `s 2^(64 j)`, the two
/// share no bit, and their limb-wise or is their sum.
pub proof fn lemma_or_is_sum(x: U256, y: U256, r: U256, t: u64, j: int)
    requires
        is_single_bit(t),
        0 <= j <= 3,
        x@ < (two_pow_64() / (t as int)) * limb_weight(j),
        y@ % ((two_pow_64() / (t as int)) * limb_weight(j)) == 0,
        r.limbs[0] == x.limbs[0] | y.limbs[0],
        r.limbs[1] == x.limbs[1] | y.limbs[1],
        r.limbs[2] == x.limbs[2] | y.limbs[2],
        r.limbs[3] == x.limbs[3] | y.limbs[3],
    ensures
        r@ == x@ + y@,
{
    let b = two_pow_64();
    let s = b / (t as int);
    lemma_single_bit_divides_base(t);
    let (x0, x1, x2, x3) = (x.limbs[0], x.limbs[1], x.limbs[2], x.limbs[3]);
    let (y0, y1, y2, y3) = (y.limbs[0], y.limbs[1], y.limbs[2], y.limbs[3]);
    lemma_or_with_zero(x0);
    lemma_or_with_zero(x1);
    lemma_or_with_zero(x2);
    lemma_or_with_zero(x3);
    lemma_or_with_zero(y0);
    lemma_or_with_zero(y1);
    lemma_or_with_zero(y2);
    lemma_or_with_zero(y3);
    if j == 0 {
        lemma_below_scaled_weight(0, x0 as int, x1 + b * (x2 + b * x3), 1, s, t as int);
        lemma_multiple_of_scaled_weight(0, y0 as int, y1 + b * (y2 + b * y3), 1, s, t as int);
        lemma_or_of_disjoint_limbs(x0, y0, t);
    } else if j == 1 {
        lemma_below_scaled_weight(x0 as int, x1 as int, x2 + b * x3, b, s, t as int);
        lemma_multiple_of_scaled_weight(y0 as int, y1 as int, y2 + b * y3, b, s, t as int);
        lemma_or_of_disjoint_limbs(x1, y1, t);
    } else if j == 2 {
        assert(x@ == (x0 + b * x1) + (b * b) * (x2 + b * x3)) by (nonlinear_arith)
            requires
                x@ == x0 + b * (x1 + b * (x2 + b * x3)),
        ;
        assert(y@ == (y0 + b * y1) + (b * b) * (y2 + b * y3)) by (nonlinear_arith)
            requires
                y@ == y0 + b * (y1 + b * (y2 + b * y3)),
        ;
        lemma_below_scaled_weight(x0 + b * x1, x2 as int, x3 as int, b * b, s, t as int);
        lemma_multiple_of_scaled_weight(y0 + b * y1, y2 as int, y3 as int, b * b, s, t as int);
        lemma_or_of_disjoint_limbs(x2, y2, t);
    } else {
        assert(x@ == (x0 + b * (x1 + b * x2)) + (b * b * b) * (x3 + b * 0)) by (nonlinear_arith)
            requires
                x@ == x0 + b * (x1 + b * (x2 + b * x3)),
        ;
        assert(y@ == (y0 + b * (y1 + b * y2)) + (b * b * b) * (y3 + b * 0)) by (nonlinear_arith)
            requires
                y@ == y0 + b * (y1 + b * (y2 + b * y3)),
        ;
        lemma_below_scaled_weight(x0 + b * (x1 + b * x2), x3 as int, 0, b * b * b, s, t as int);
        lemma_multiple_of_scaled_weight(
            y0 + b * (y1 + b * y2),
            y3 as int,
            0,
            b * b * b,
            s,
            t as int,
        );
        lemma_or_of_disjoint_limbs(x3, y3, t);
    }
}

/// What is known of the lowest set bit of a limb `l` once the limbs below it
/// are zero: with `t` that bit, `w` the limb's weight and `rest` the limbs
/// above, the value `w (l + 2^64 rest)` is an odd multiple of `t w`, and
/// `t w` times `(2^64 / t) v` is `2^256` when `w 2^64 v = 2^256`.
proof fn lemma_lowest_bit_of_limb(l: u64, n: u64, rest: int, w: int, v: int)
    requires
        l != 0,
        n + l == two_pow_64(),
        0 <= rest,
        w >= 1,
        v >= 1,
        w * two_pow_64() * v == two_pow_256(),
    ensures
        is_single_bit(n & l),
        (w * (l + two_pow_64() * rest)) % ((n & l) * w) == 0,
        ((w * (l + two_pow_64() * rest)) / ((n & l) * w)) % 2 == 1,
        two_pow_256() == ((n & l) * w) * ((two_pow_64() / ((n & l) as int)) * v),
{
    let t = n & l;
    let b = two_pow_64();
    lemma_negation_isolates_lowest_bit(n, l);
    lemma_single_bit_divides_base(t);
    lemma_clear_below_bit_is_multiple(l, t);
    lemma_quotient_by_set_bit_is_odd(l, t);
    let s = b / (t as int);
    let u = (l as int) / (t as int);
    lemma_fundamental_div_mod(l as int, t as int);
    assert(u % 2 == 1);
    let quotient = u + s * rest;
    let half = s / 2;
    assert(s * rest == 2 * (half * rest)) by (nonlinear_arith)
        requires
            s == 2 * half,
    ;
    assert(quotient % 2 == 1);
    assert(w * (l + b * rest) == quotient * (t * w) + 0) by (nonlinear_arith)
        requires
            l == t * u,
            b == s * t,
            quotient == u + s * rest,
    ;
    assert(t * w >= 1) by (nonlinear_arith)
        requires
            t >= 1,
            w >= 1,
    ;
    lemma_fundamental_div_mod_converse(w * (l + b * rest), t * w, quotient, 0);
    assert(two_pow_256() == (t * w) * (s * v)) by (nonlinear_arith)
        requires
            w * b * v == two_pow_256(),
            b == s * t,
    ;
}

/// The bitwise and of a nonzero value `d` with its negation modulo `2^256`
/// is the lowest set bit of `d`. The lemma returns that bit as the single
/// bit `t` of limb `i`; it divides `d` with an odd quotient, and it divides
/// `2^256` with quotient `(2^64 / t) 2^(64 (3 - i))`.
pub proof fn lemma_lowest_set_bit(d: U256, n: U256, twos: U256) -> (bit: (u64, int))
    requires
        d@ != 0,
        n@ + d@ == two_pow_256(),
        twos.limbs[0] == n.limbs[0] & d.limbs[0],
        twos.limbs[1] == n.limbs[1] & d.limbs[1],
        twos.limbs[2] == n.limbs[2] & d.limbs[2],
        twos.limbs[3] == n.limbs[3] & d.limbs[3],
    ensures
        is_single_bit(bit.0),
        0 <= bit.1 <= 3,
        twos@ == bit.0 * limb_weight(bit.1),
        twos@ >= 1,
        d@ % twos@ == 0,
        (d@ / twos@) % 2 == 1,
        two_pow_256() == twos@ * ((two_pow_64() / (bit.0 as int)) * limb_weight(3 - bit.1)),
{
    let b = two_pow_64();
    let (d0, d1, d2, d3) = (d.limbs[0], d.limbs[1], d.limbs[2], d.limbs[3]);
    let (n0, n1, n2, n3) = (n.limbs[0], n.limbs[1], n.limbs[2], n.limbs[3]);
    lemma_and_with_zero(n0);
    lemma_and_with_zero(n1);
    lemma_and_with_zero(n2);
    lemma_and_with_zero(n3);
    if d0 != 0 {
        let carry1 = (n1 + d1) + b * ((n2 + d2) + b * (n3 + d3));
        assert(n0 + d0 == b * (b * b * b - carry1));
        assert(n0 + d0 == b);
        let carry2 = (n2 + d2) + b * (n3 + d3);
        assert(n1 + d1 + 1 == b * (b * b - carry2));
        assert(n1 + d1 + 1 == b);
        let carry3 = n3 + d3;
        assert(n2 + d2 + 1 == b * (b - carry3));
        assert(n2 + d2 + 1 == b);
        assert(n3 + d3 + 1 == b);
        lemma_complement_shares_no_bit(n1, d1);
        lemma_complement_shares_no_bit(n2, d2);
        lemma_complement_shares_no_bit(n3, d3);
        lemma_lowest_bit_of_limb(d0, n0, d1 + b * (d2 + b * d3), 1, b * b * b);
        let t = n0 & d0;
        assert(twos@ == t * 1);
        assert(d@ == 1 * (d0 + b * (d1 + b * (d2 + b * d3))));
        (t, 0)
    } else if d1 != 0 {
        let carry2 = (n2 + d2) + b * (n3 + d3);
        assert(n0 == b * (b * b * b - (n1 + d1) - b * carry2));
        assert(n0 == 0);
        assert(n1 + d1 == b * (b * b - carry2));
        assert(n1 + d1 == b);
        let carry3 = n3 + d3;
        assert(n2 + d2 + 1 == b * (b - carry3));
        assert(n2 + d2 + 1 == b);
        assert(n3 + d3 + 1 == b);
        lemma_complement_shares_no_bit(n2, d2);
        lemma_complement_shares_no_bit(n3, d3);
        lemma_lowest_bit_of_limb(d1, n1, d2 + b * d3, b, b * b);
        let t = n1 & d1;
        assert(twos@ == t * b);
        assert(d@ == b * (d1 + b * (d2 + b * d3)));
        (t, 1)
    } else if d2 != 0 {
        let carry3 = n3 + d3;
        assert(n0 == b * (b * b * b - n1 - b * ((n2 + d2) + b * carry3)));
        assert(n0 == 0);
        assert(n1 == b * (b * b - (n2 + d2) - b * carry3));
        assert(n1 == 0);
        assert(n2 + d2 == b * (b - carry3));
        assert(n2 + d2 == b);
        assert(n3 + d3 + 1 == b);
        lemma_complement_shares_no_bit(n3, d3);
        lemma_lowest_bit_of_limb(d2, n2, d3 as int, b * b, b);
        let t = n2 & d2;
        assert(twos@ == t * (b * b));
        assert(d@ == (b * b) * (d2 + b * d3));
        (t, 2)
    } else {
        assert(d3 != 0);
        assert(n0 == b * (b * b * b - n1 - b * (n2 + b * (n3 + d3))));
        assert(n0 == 0);
        assert(n1 == b * (b * b - n2 - b * (n3 + d3)));
        assert(n1 == 0);
        assert(n2 == b * (b - (n3 + d3)));
        assert(n2 == 0);
        assert(n3 + d3 == b);
        lemma_lowest_bit_of_limb(d3, n3, 0, b * b * b, 1);
        let t = n3 & d3;
        assert(twos@ == t * (b * b * b));
        assert(d@ == (b * b * b) * (d3 + b * 0));
        (t, 3)
    }
}

/// The low four bits of a value are those of its lowest limb.
proof fn lemma_low_four_bits(x: U256)
    ensures
        x@ % 16 == x.limbs[0] % 16,
{
    let b = two_pow_64();
    let rest = x.limbs[1] + b * (x.limbs[2] + b * x.limbs[3]);
    let upper = 0x1000_0000_0000_0000 * rest;
    assert(x@ == 16 * upper + x.limbs[0]);
    lemma_mod_multiples_vanish(upper, x.limbs[0] as int, 16);
}

/// For an odd `d`, the value `3 d` modulo `2^256` with its second bit
/// flipped is an inverse of `d` modulo `16`.
pub proof fn lemma_inverse_seed(d: U256, tripled: U256, two: U256, seed: U256)
    requires
        d@ % 2 == 1,
        tripled@ == (3 * d@) % two_pow_256(),
        two@ == 2,
        seed.limbs[0] == tripled.limbs[0] ^ two.limbs[0],
    ensures
        (d@ * seed@) % 16 == 1,
{
    let e: u64 = d.limbs[0] % 16;
    let z = tripled.limbs[0];
    assert(two.limbs[0] == 2);
    lemma_low_four_bits(d);
    lemma_low_four_bits(seed);
    lemma_low_four_bits(tripled);
    let sixteenth = 0x1000_0000_0000_0000_0000_0000_0000_0000_0000_0000_0000_0000_0000_0000_0000_0000int;
    assert(two_pow_256() == 16 * sixteenth);
    lemma_mod_mod(3 * d@, 16, sixteenth);
    assert(z % 16 == (3 * d@) % 16);
    let high = d@ / 16;
    assert(d@ == 16 * high + e);
    assert(3 * d@ == 16 * (3 * high) + 3 * e);
    lemma_mod_multiples_vanish(3 * high, 3 * e, 16);
    assert(z % 16 == (3 * e) % 16);
    assert(e % 2 == 1);
    lemma_seed_inverts_low_bits(z, e);
    lemma_mul_mod_noop_general(d@, seed@, 16);
    assert((d@ * seed@) % 16 == ((d@ % 16) * (seed@ % 16)) % 16);
    assert((d@ % 16) * (seed@ % 16) == ((z ^ 2) % 16) * e) by (nonlinear_arith)
        requires
            seed@ % 16 == (z ^ 2) % 16,
            d@ % 16 == e,
    ;
}

} // verus!