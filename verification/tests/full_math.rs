use alloy::primitives::{U256 as Wide256, U512};
use yieldera_math::error::ArithmeticError;
use yieldera_math::full_math::{mul_div, mul_div_rounding_up};
use yieldera_math::u256::U256;

const Q128: Wide256 = Wide256::from_limbs([0, 0, 1, 0]);

fn lib(x: Wide256) -> U256 {
    U256::from_limbs(x.into_limbs())
}

fn wide(x: U256) -> Wide256 {
    Wide256::from_limbs(x.into_limbs())
}

fn div(a: Wide256, b: Wide256, d: Wide256) -> Result<Wide256, ArithmeticError> {
    mul_div(lib(a), lib(b), lib(d)).map(wide)
}

fn div_up(a: Wide256, b: Wide256, d: Wide256) -> Result<Wide256, ArithmeticError> {
    mul_div_rounding_up(lib(a), lib(b), lib(d)).map(wide)
}

fn to_512(x: Wide256) -> U512 {
    let l = x.into_limbs();
    U512::from_limbs([l[0], l[1], l[2], l[3], 0, 0, 0, 0])
}

/// The expected outcome, computed in 512 bits.
fn reference(a: Wide256, b: Wide256, d: Wide256, round_up: bool) -> Result<Wide256, ArithmeticError> {
    let product = to_512(a) * to_512(b);
    let limit = to_512(Wide256::MAX);
    let fits = product <= limit;
    if d == Wide256::ZERO {
        return Err(if fits {
            ArithmeticError::DenominatorIsZero
        } else {
            ArithmeticError::DenominatorIsLteProdOne
        });
    }
    let floor = product / to_512(d);
    if floor > limit {
        return Err(ArithmeticError::DenominatorIsLteProdOne);
    }
    let l = floor.into_limbs();
    let floor = Wide256::from_limbs([l[0], l[1], l[2], l[3]]);
    if round_up && product % to_512(d) != U512::ZERO {
        if floor == Wide256::MAX {
            return Err(ArithmeticError::ResultOverflow);
        }
        return Ok(floor + Wide256::from(1u64));
    }
    Ok(floor)
}

struct Samples {
    state: u64,
}

impl Samples {
    fn word(&mut self) -> u64 {
        self.state ^= self.state << 13;
        self.state ^= self.state >> 7;
        self.state ^= self.state << 17;
        self.state
    }

    /// A value with a varying number of significant bits and trailing zeros.
    fn value(&mut self) -> Wide256 {
        let raw = Wide256::from_limbs([self.word(), self.word(), self.word(), self.word()]);
        let down = (self.word() % 257) as usize;
        let up = (self.word() % 200) as usize;
        let shaped = raw >> down;
        if self.word() % 3 == 0 {
            shaped << up
        } else {
            shaped
        }
    }
}

#[test]
fn test_mul_div() {
    //Revert if the denominator is zero
    let result = div(Q128, Wide256::from(5), Wide256::ZERO);
    assert_eq!(result.err().unwrap().to_string(), "Denominator is 0");

    // Revert if the denominator is zero and numerator overflows
    let result = div(Q128, Q128, Wide256::ZERO);
    assert_eq!(
        result.err().unwrap().to_string(),
        "Denominator is less than or equal to prod_1"
    );

    // Revert if the output overflows uint256
    let result = div(Q128, Q128, Wide256::from(1));
    assert_eq!(
        result.err().unwrap().to_string(),
        "Denominator is less than or equal to prod_1"
    );
}

#[test]
fn full_math_test_mul_div() {
    //Revert if the denominator is zero
    let result = div(Q128, Wide256::from(5), Wide256::ZERO);
    assert_eq!(result.err().unwrap().to_string(), "Denominator is 0");

    // Revert if the denominator is zero and numerator overflows
    let result = div(Q128, Q128, Wide256::ZERO);
    assert_eq!(
        result.err().unwrap().to_string(),
        "Denominator is less than or equal to prod_1"
    );

    // Revert if the output overflows uint256
    let result = div(Q128, Q128, Wide256::from(1));
    assert_eq!(
        result.err().unwrap().to_string(),
        "Denominator is less than or equal to prod_1"
    );

    // Reverts on overflow with all max inputs
    let result = div(Wide256::MAX, Wide256::MAX, Wide256::MAX - Wide256::from(1));
    assert_eq!(
        result.err().unwrap().to_string(),
        "Denominator is less than or equal to prod_1"
    );

    // All max inputs
    let result = div(Wide256::MAX, Wide256::MAX, Wide256::MAX);
    assert_eq!(result.unwrap(), Wide256::MAX);

    // Accurate without phantom overflow
    let result = div(
        Q128,
        Wide256::from(50) * Q128 / Wide256::from(100),
        Wide256::from(150) * Q128 / Wide256::from(100),
    );
    assert_eq!(result.unwrap(), Q128 / Wide256::from(3));

    // Accurate with phantom overflow
    let result = div(Q128, Wide256::from(35) * Q128, Wide256::from(8) * Q128);
    assert_eq!(
        result.unwrap(),
        Wide256::from(4375) * Q128 / Wide256::from(1000)
    );

    // Accurate with phantom overflow and repeating decimal
    let result = div(Q128, Wide256::from(1000) * Q128, Wide256::from(3000) * Q128);
    assert_eq!(result.unwrap(), Q128 / Wide256::from(3));
}

#[test]
fn mul_div_floors_small_quotients() {
    assert_eq!(div(Wide256::from(6), Wide256::from(7), Wide256::from(4)), Ok(Wide256::from(10)));
    assert_eq!(div(Wide256::from(6), Wide256::from(7), Wide256::from(42)), Ok(Wide256::from(1)));
    assert_eq!(div(Wide256::from(6), Wide256::from(7), Wide256::from(43)), Ok(Wide256::ZERO));
    assert_eq!(div(Wide256::ZERO, Wide256::MAX, Wide256::from(3)), Ok(Wide256::ZERO));
    assert_eq!(div(Wide256::MAX, Wide256::from(1), Wide256::from(1)), Ok(Wide256::MAX));
}

#[test]
fn mul_div_zero_denominator_with_small_product() {
    assert_eq!(
        div(Wide256::from(6), Wide256::from(7), Wide256::ZERO),
        Err(ArithmeticError::DenominatorIsZero)
    );
    assert_eq!(
        div(Wide256::ZERO, Wide256::ZERO, Wide256::ZERO),
        Err(ArithmeticError::DenominatorIsZero)
    );
    assert_eq!(
        div(Wide256::MAX, Wide256::from(1), Wide256::ZERO),
        Err(ArithmeticError::DenominatorIsZero)
    );
}

#[test]
fn mul_div_zero_denominator_with_wide_product() {
    assert_eq!(
        div(Wide256::MAX, Wide256::from(2), Wide256::ZERO),
        Err(ArithmeticError::DenominatorIsLteProdOne)
    );
    assert_eq!(
        div_up(Q128, Q128, Wide256::ZERO),
        Err(ArithmeticError::DenominatorIsLteProdOne)
    );
}

#[test]
fn mul_div_denominator_equal_to_high_half_fails() {
    // The product is 5 * 2^256: the high half is 5.
    let a = Q128 * Wide256::from(5);
    assert_eq!(div(a, Q128, Wide256::from(5)), Err(ArithmeticError::DenominatorIsLteProdOne));
    assert_eq!(div(a, Q128, Wide256::from(4)), Err(ArithmeticError::DenominatorIsLteProdOne));
    // One above the high half the quotient fits again.
    let expected = reference(a, Q128, Wide256::from(6), false);
    assert!(expected.is_ok());
    assert_eq!(div(a, Q128, Wide256::from(6)), expected);
}

#[test]
fn mul_div_max_by_max_over_max_is_max() {
    assert_eq!(div(Wide256::MAX, Wide256::MAX, Wide256::MAX), Ok(Wide256::MAX));
    assert_eq!(div_up(Wide256::MAX, Wide256::MAX, Wide256::MAX), Ok(Wide256::MAX));
}

#[test]
fn mul_div_q128_thirds() {
    let third = Q128 / Wide256::from(3);
    assert_eq!(
        div(
            Q128,
            Wide256::from(50) * Q128 / Wide256::from(100),
            Wide256::from(150) * Q128 / Wide256::from(100)
        ),
        Ok(third)
    );
    assert_eq!(
        div(Q128, Wide256::from(1000) * Q128, Wide256::from(3000) * Q128),
        Ok(third)
    );
    assert_eq!(
        div_up(Q128, Wide256::from(1000) * Q128, Wide256::from(3000) * Q128),
        Ok(third + Wide256::from(1))
    );
}

#[test]
fn mul_div_by_powers_of_two() {
    // Every position of the lowest set bit of the denominator, in every limb.
    let a = Wide256::MAX - Wide256::from(12345);
    let b = Wide256::MAX / Wide256::from(7);
    for shift in 0..256usize {
        let d = (Wide256::from(1) << shift) | (Wide256::from(1) << 255usize);
        let expected = reference(a, b, d, false);
        assert!(expected.is_ok());
        assert_eq!(div(a, b, d), expected);
        assert_eq!(div_up(a, b, d), reference(a, b, d, true));
    }
    for shift in 0..256usize {
        let d = Wide256::from(1) << shift;
        let small = Wide256::from(0xdead_beef_u64);
        assert_eq!(div(a, small, d), reference(a, small, d, false));
        assert_eq!(div(a, b, d), reference(a, b, d, false));
    }
}

#[test]
fn mul_div_matches_wide_reference() {
    let mut samples = Samples { state: 0x9e37_79b9_7f4a_7c15 };
    let mut succeeded = 0;
    let mut failed = 0;
    for _ in 0..4000 {
        let (a, b, d) = (samples.value(), samples.value(), samples.value());
        let expected = reference(a, b, d, false);
        if expected.is_ok() {
            succeeded += 1;
        } else {
            failed += 1;
        }
        assert_eq!(div(a, b, d), expected);
    }
    assert!(succeeded > 500);
    assert!(failed > 500);
}

#[test]
fn mul_div_rounding_up_matches_wide_reference() {
    let mut samples = Samples { state: 0x2545_f491_4f6c_dd1d };
    for _ in 0..4000 {
        let (a, b, d) = (samples.value(), samples.value(), samples.value());
        assert_eq!(div_up(a, b, d), reference(a, b, d, true));
    }
}

#[test]
fn mul_div_rounding_up_small_values() {
    assert_eq!(div_up(Wide256::from(6), Wide256::from(7), Wide256::from(4)), Ok(Wide256::from(11)));
    assert_eq!(div_up(Wide256::from(6), Wide256::from(7), Wide256::from(42)), Ok(Wide256::from(1)));
    assert_eq!(div_up(Wide256::from(6), Wide256::from(7), Wide256::from(43)), Ok(Wide256::from(1)));
    assert_eq!(div_up(Wide256::from(6), Wide256::from(7), Wide256::from(3)), Ok(Wide256::from(14)));
    assert_eq!(div_up(Wide256::ZERO, Wide256::from(7), Wide256::from(3)), Ok(Wide256::ZERO));
}

#[test]
fn mul_div_rounding_up_past_max_overflows() {
    // The product is 2^257 - 1: halved, it is the largest value and a half.
    let a = Wide256::from(535006138814359u64);
    let b = Wide256::from_str_radix(
        "432862656469423142931042426214547535783388063929571229938474969",
        10,
    )
    .unwrap();
    let d = Wide256::from(2);
    assert_eq!(div(a, b, d), Ok(Wide256::MAX));
    assert_eq!(reference(a, b, d, true), Err(ArithmeticError::ResultOverflow));
    assert_eq!(div_up(a, b, d), Err(ArithmeticError::ResultOverflow));
}

#[test]
fn mul_div_rounding_up_keeps_errors_of_mul_div() {
    assert_eq!(
        div_up(Wide256::from(5), Q128, Wide256::ZERO),
        Err(ArithmeticError::DenominatorIsZero)
    );
    assert_eq!(
        div_up(Q128, Q128, Wide256::from(1)),
        Err(ArithmeticError::DenominatorIsLteProdOne)
    );
}

#[test]
fn arithmetic_error_messages() {
    assert_eq!(ArithmeticError::DenominatorIsZero.to_string(), "Denominator is 0");
    assert_eq!(
        ArithmeticError::DenominatorIsLteProdOne.to_string(),
        "Denominator is less than or equal to prod_1"
    );
    assert_eq!(ArithmeticError::ResultOverflow.to_string(), "Result is U256::MAX");
}
