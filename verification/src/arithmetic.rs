//! The arithmetic that the interpreter asks of its host.
//!
//! The interpreter decides which operation applies to which numbers and
//! what the result means for the program; computing the result is left to
//! an [`Arithmetic`] unit. The interpreter's contracts speak of a unit's
//! answers through `call_ensures`: they hold of every unit, whatever it
//! answers.

use vstd::prelude::*;
use crate::number::Number;

verus! {

/// Operations on one number.
#[derive(Clone, Copy, Debug, PartialEq, Eq, Structural)]
pub enum UnaryFunction {
    Sin,
    Cos,
    Tan,
    Asin,
    Acos,
    Atan,
    /// The natural logarithm.
    Ln,
    Sqrt,
}

/// Operations on two numbers.
#[derive(Clone, Copy, Debug, PartialEq, Eq, Structural)]
pub enum BinaryFunction {
    Add,
    Sub,
    Mul,
    Div,
    /// The remainder of a division, with the sign of the dividend.
    Rem,
    /// The first number raised to the second.
    Pow,
    /// The angle of the point whose ordinate is the first number and
    /// whose abscissa is the second.
    Atan2,
    Max,
    Min,
}

/// A unit that computes with numbers.
pub trait Arithmetic {
    /// The number that the decimal numeral `text` denotes, if it is one.
    fn parse_decimal(&self, text: &str) -> Option<Number>;

    /// The number nearest to the integer `value`.
    fn from_integer(&self, value: u32) -> Number;

    /// `function` applied to `x`.
    fn unary(&self, function: UnaryFunction, x: Number) -> Number;

    /// `function` applied to `x` and `y`.
    fn binary(&self, function: BinaryFunction, x: Number, y: Number) -> Number;

    /// A random number from zero up to, but not including, one.
    fn random(&self) -> Number;

    /// A random number from `low` up to, but not including, `high`.
    fn random_between(&self, low: Number, high: Number) -> Number
        requires
            low.less(high),
    ;
}

} // verus!
