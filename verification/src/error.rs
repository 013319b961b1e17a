//! The ways in which a wide multiply-divide can fail.

use vstd::prelude::*;

verus! {

/// Why a multiply-divide has no representable result.
#[derive(Clone, Copy, Debug, PartialEq, Eq, Structural)]
pub enum ArithmeticError {
    /// The product fits in 256 bits and the denominator is zero.
    DenominatorIsZero,
    /// The product exceeds 256 bits and the denominator is at most its high
    /// half: the quotient would not fit in 256 bits, or the denominator is
    /// zero.
    DenominatorIsLteProdOne,
    /// Rounding up would pass the largest 256-bit value.
    ResultOverflow,
}

impl ArithmeticError {
    /// The text of the error.
    pub open spec fn message(self) -> Seq<char> {
        match self {
            ArithmeticError::DenominatorIsZero => "Denominator is 0"@,
            ArithmeticError::DenominatorIsLteProdOne => "Denominator is less than or equal to prod_1"@,
            ArithmeticError::ResultOverflow => "Result is U256::MAX"@,
        }
    }

    /// The text of the error, as an owned string.
    pub fn to_string(&self) -> (text: String)
        ensures
            text@ == self.message(),
    {
        match self {
            ArithmeticError::DenominatorIsZero => "Denominator is 0".to_owned(),
            ArithmeticError::DenominatorIsLteProdOne => {
                "Denominator is less than or equal to prod_1".to_owned()
            },
            ArithmeticError::ResultOverflow => "Result is U256::MAX".to_owned(),
        }
    }
}

} // verus!
