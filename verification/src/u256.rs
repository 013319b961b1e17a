//! A 256-bit unsigned integer held as four 64-bit limbs, least significant
//! first, together with the arithmetic that the wide multiply-divide needs.
//!
//! The value type is this crate's own; the arithmetic itself is done by the
//! `U256` of `alloy::primitives`, behind the trusted functions at the end of
//! this file.

use vstd::prelude::*;

verus! {

/// `2^64`, the weight of one limb.
pub open spec fn two_pow_64() -> int {
    0x1_0000_0000_0000_0000int
}

/// `2^256`, one more than the largest value a `U256` can hold.
pub open spec fn two_pow_256() -> int {
    0x1_0000_0000_0000_0000_0000_0000_0000_0000_0000_0000_0000_0000_0000_0000_0000_0000int
}

/// The number that four limbs stand for, least significant first.
pub open spec fn limbs_value(l0: u64, l1: u64, l2: u64, l3: u64) -> int {
    l0 + two_pow_64() * (l1 + two_pow_64() * (l2 + two_pow_64() * l3))
}

/// An unsigned integer below `2^256`.
#[derive(Clone, Copy, Debug)]
pub struct U256 {
    /// The four 64-bit digits, least significant first.
    pub limbs: [u64; 4],
}

impl View for U256 {
    type V = int;

    open spec fn view(&self) -> int {
        limbs_value(self.limbs[0], self.limbs[1], self.limbs[2], self.limbs[3])
    }
}

impl U256 {
    /// Builds a value from its limbs, least significant first.
    pub fn from_limbs(limbs: [u64; 4]) -> (r: U256)
        ensures
            r.limbs == limbs,
    {
        U256 { limbs }
    }

    /// The limbs of the value, least significant first.
    pub fn into_limbs(self) -> (limbs: [u64; 4])
        ensures
            limbs == self.limbs,
    {
        self.limbs
    }

    /// The value zero.
    pub fn zero() -> (r: U256)
        ensures
            r@ == 0,
    {
        U256 { limbs: [0, 0, 0, 0] }
    }

    /// The largest value, `2^256 - 1`.
    pub fn max_value() -> (r: U256)
        ensures
            r@ == two_pow_256() - 1,
    {
        U256 { limbs: [u64::MAX, u64::MAX, u64::MAX, u64::MAX] }
    }

    /// The value of a single 64-bit word.
    pub fn from_u64(word: u64) -> (r: U256)
        ensures
            r@ == word,
    {
        U256 { limbs: [word, 0, 0, 0] }
    }

    /// Whether two values are the same number.
    pub fn eq(&self, other: &U256) -> (r: bool)
        ensures
            r == (self@ == other@),
    {
        proof {
            lemma_value_determines_limbs(*self, *other);
        }
        self.limbs[0] == other.limbs[0] && self.limbs[1] == other.limbs[1]
            && self.limbs[2] == other.limbs[2] && self.limbs[3] == other.limbs[3]
    }
}

/// Every `U256` stands for a number in `[0, 2^256)`.
pub proof fn lemma_value_in_range(x: U256)
    ensures
        0 <= x@ < two_pow_256(),
{
}

/// Two values that stand for the same number have the same limbs.
pub proof fn lemma_value_determines_limbs(x: U256, y: U256)
    ensures
        x@ == y@ <==> x.limbs@ =~= y.limbs@,
{
}

// The arithmetic below is done by the `U256` of `alloy::primitives` (a
// `ruint::Uint<256, 4>`). Each function converts the limbs, makes one call
// and converts back; its contract is taken on trust from the documentation
// and source of that type.
impl U256 {
    /// `Uint::mul_mod`: the product of `self` and `rhs` reduced by
    /// `modulus`, computed without overflow, and zero for a zero modulus.
    #[verifier::external_body]
    pub(crate) fn mul_mod(self, rhs: U256, modulus: U256) -> (r: U256)
        ensures
            r@ == if modulus@ == 0 {
                0
            } else {
                (self@ * rhs@) % modulus@
            },
    {
        let a = alloy::primitives::U256::from_limbs(self.limbs);
        let b = alloy::primitives::U256::from_limbs(rhs.limbs);
        let m = alloy::primitives::U256::from_limbs(modulus.limbs);
        U256 { limbs: a.mul_mod(b, m).into_limbs() }
    }

    /// `Uint::wrapping_mul`: the product modulo `2^256`.
    #[verifier::external_body]
    pub(crate) fn wrapping_mul(self, rhs: U256) -> (r: U256)
        ensures
            r@ == (self@ * rhs@) % two_pow_256(),
    {
        let a = alloy::primitives::U256::from_limbs(self.limbs);
        let b = alloy::primitives::U256::from_limbs(rhs.limbs);
        U256 { limbs: a.wrapping_mul(b).into_limbs() }
    }

    /// `Uint::wrapping_add`: the sum modulo `2^256`.
    #[verifier::external_body]
    pub(crate) fn wrapping_add(self, rhs: U256) -> (r: U256)
        ensures
            r@ == (self@ + rhs@) % two_pow_256(),
    {
        let a = alloy::primitives::U256::from_limbs(self.limbs);
        let b = alloy::primitives::U256::from_limbs(rhs.limbs);
        U256 { limbs: a.wrapping_add(b).into_limbs() }
    }

    /// `Uint::wrapping_sub`: the difference modulo `2^256`.
    #[verifier::external_body]
    pub(crate) fn wrapping_sub(self, rhs: U256) -> (r: U256)
        ensures
            r@ == (self@ - rhs@) % two_pow_256(),
    {
        let a = alloy::primitives::U256::from_limbs(self.limbs);
        let b = alloy::primitives::U256::from_limbs(rhs.limbs);
        U256 { limbs: a.wrapping_sub(b).into_limbs() }
    }

    /// `Uint::wrapping_div`: the quotient rounded down. The outside function
    /// panics on a zero divisor, which the precondition leaves out.
    #[verifier::external_body]
    pub(crate) fn wrapping_div(self, rhs: U256) -> (r: U256)
        requires
            rhs@ != 0,
        ensures
            r@ == self@ / rhs@,
    {
        let a = alloy::primitives::U256::from_limbs(self.limbs);
        let b = alloy::primitives::U256::from_limbs(rhs.limbs);
        U256 { limbs: a.wrapping_div(b).into_limbs() }
    }

    /// `BitAnd` of `Uint`: the bitwise and, limb by limb.
    #[verifier::external_body]
    pub(crate) fn bitand(self, rhs: U256) -> (r: U256)
        ensures
            r.limbs[0] == self.limbs[0] & rhs.limbs[0],
            r.limbs[1] == self.limbs[1] & rhs.limbs[1],
            r.limbs[2] == self.limbs[2] & rhs.limbs[2],
            r.limbs[3] == self.limbs[3] & rhs.limbs[3],
    {
        let a = alloy::primitives::U256::from_limbs(self.limbs);
        let b = alloy::primitives::U256::from_limbs(rhs.limbs);
        U256 { limbs: (a & b).into_limbs() }
    }

    /// `BitOr` of `Uint`: the bitwise or, limb by limb.
    #[verifier::external_body]
    pub(crate) fn bitor(self, rhs: U256) -> (r: U256)
        ensures
            r.limbs[0] == self.limbs[0] | rhs.limbs[0],
            r.limbs[1] == self.limbs[1] | rhs.limbs[1],
            r.limbs[2] == self.limbs[2] | rhs.limbs[2],
            r.limbs[3] == self.limbs[3] | rhs.limbs[3],
    {
        let a = alloy::primitives::U256::from_limbs(self.limbs);
        let b = alloy::primitives::U256::from_limbs(rhs.limbs);
        U256 { limbs: (a | b).into_limbs() }
    }

    /// `BitXor` of `Uint`: the bitwise exclusive or, limb by limb.
    #[verifier::external_body]
    pub(crate) fn bitxor(self, rhs: U256) -> (r: U256)
        ensures
            r.limbs[0] == self.limbs[0] ^ rhs.limbs[0],
            r.limbs[1] == self.limbs[1] ^ rhs.limbs[1],
            r.limbs[2] == self.limbs[2] ^ rhs.limbs[2],
            r.limbs[3] == self.limbs[3] ^ rhs.limbs[3],
    {
        let a = alloy::primitives::U256::from_limbs(self.limbs);
        let b = alloy::primitives::U256::from_limbs(rhs.limbs);
        U256 { limbs: (a ^ b).into_limbs() }
    }

    /// `PartialOrd::lt` of `Uint`: whether `self` is the smaller number.
    #[verifier::external_body]
    pub(crate) fn lt(self, rhs: U256) -> (r: bool)
        ensures
            r == (self@ < rhs@),
    {
        let a = alloy::primitives::U256::from_limbs(self.limbs);
        let b = alloy::primitives::U256::from_limbs(rhs.limbs);
        a < b
    }
}

} // verus!
