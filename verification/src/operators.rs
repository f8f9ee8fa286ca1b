//! The leaves of evaluation: what a literal stands for, what an operator
//! yields, what a built-in function yields.

use vstd::prelude::*;
use crate::arithmetic::{Arithmetic, BinaryFunction, UnaryFunction};
use crate::error_types::{EvalError, MathError, SymbolError};
use crate::number::Number;
use crate::semantics::{
    applies, builds, built_in, computes, derives, digit_value, digits_value, eval_answer,
    math_answer, named, radix_value, reciprocal_named, resolves, unary_named,
};
use crate::symbol_manager::{global_constants, SymbolTable};
use crate::text::{chars_of, reads};

verus! {

fn digit_of(c: char) -> (out: Option<u32>)
    ensures
        match out {
            Some(d) => digit_value(c) == Some(d as nat),
            None => digit_value(c) is None,
        },
{
    if '0' <= c && c <= '9' {
        Some(c as u32 - '0' as u32)
    } else if 'a' <= c && c <= 'z' {
        Some(c as u32 - 'a' as u32 + 10)
    } else if 'A' <= c && c <= 'Z' {
        Some(c as u32 - 'A' as u32 + 10)
    } else {
        None
    }
}

proof fn lemma_digits_stop(s: Seq<char>, k: int, radix: nat)
    requires
        0 <= k <= s.len(),
        digits_value(s.subrange(0, k), radix) is None,
    ensures
        digits_value(s, radix) is None,
    decreases s.len() - k,
{
    if k < s.len() {
        assert(s.subrange(0, k + 1).drop_last() =~= s.subrange(0, k));
        lemma_digits_stop(s, k + 1, radix);
    } else {
        assert(s.subrange(0, k) =~= s);
    }
}

/// The 32-bit value of the numeral `chars[from..]` in the radix `radix`.
#[verifier::loop_isolation(false)]
pub fn parse_radix(chars: &Vec<char>, from: usize, radix: u32) -> (out: Option<u32>)
    requires
        from <= chars.len(),
        2 <= radix <= 36,
    ensures
        out == radix_value(chars@.subrange(from as int, chars.len() as int), radix as nat),
{
    let ghost numeral = chars@.subrange(from as int, chars.len() as int);
    let mut start = from;
    if start < chars.len() && chars[start] == '+' {
        start = start + 1;
    }
    let ghost digits = chars@.subrange(start as int, chars.len() as int);
    proof {
        if start > from {
            assert(numeral[0] == '+');
            assert(numeral.subrange(1, numeral.len() as int) =~= digits);
        } else {
            assert(numeral =~= digits);
            if numeral.len() > 0 {
                assert(numeral[0] == chars@[from as int]);
            }
        }
    }
    if start == chars.len() {
        return None;
    }
    let mut value: u64 = 0;
    let mut big = false;
    let mut i: usize = start;
    let ghost mut exact: nat = 0;
    assert(digits.subrange(0, 0) =~= Seq::empty());
    while i < chars.len()
        invariant
            start <= i <= chars.len(),
            2 <= radix <= 36,
            digits == chars@.subrange(start as int, chars.len() as int),
            digits_value(digits.subrange(0, i - start), radix as nat) == Some(exact),
            !big ==> value == exact && exact <= u32::MAX,
            big ==> exact > u32::MAX,
        decreases chars.len() - i,
    {
        let ghost shorter = digits.subrange(0, i - start);
        let ghost longer = digits.subrange(0, i - start + 1);
        proof {
            assert(longer.drop_last() =~= shorter);
            assert(longer.last() == chars@[i as int]);
        }
        let digit = match digit_of(chars[i]) {
            Some(d) => if d < radix {
                Some(d)
            } else {
                None
            },
            None => None,
        };
        assert(digits_value(longer, radix as nat) == match (
            digits_value(shorter, radix as nat),
            digit_value(chars@[i as int]),
        ) {
            (Some(v), Some(d)) => if d < radix as nat {
                Some(v * (radix as nat) + d)
            } else {
                None
            },
            _ => None,
        });
        match digit {
            Some(d) => {
                proof {
                    assert(exact * (radix as nat) >= exact) by (nonlinear_arith)
                        requires
                            radix >= 1,
                    ;
                    exact = exact * (radix as nat) + d as nat;
                }
                if !big {
                    assert(value * (radix as u64) <= 0xffff_ffff * 36) by (nonlinear_arith)
                        requires
                            value <= 0xffff_ffff,
                            radix <= 36,
                    ;
                    let next = value * (radix as u64) + d as u64;
                    if next > u32::MAX as u64 {
                        big = true;
                    } else {
                        value = next;
                    }
                }
            },
            None => {
                proof {
                    lemma_digits_stop(digits, i - start + 1, radix as nat);
                }
                return None;
            },
        }
        i = i + 1;
    }
    assert(digits.subrange(0, i - start) =~= digits);
    if big {
        None
    } else {
        Some(value as u32)
    }
}

/// What the literal `text` stands for: a hexadecimal numeral behind `0x`,
/// a binary numeral behind `0b`, a decimal numeral, a name of `table`, or a
/// name of a constant of every scope, whichever fits first.
pub fn resolve_literal<U: Arithmetic>(text: &String, table: &SymbolTable, unit: &U) -> (out: Result<
    Number,
    EvalError,
>)
    requires
        table.wf(),
    ensures
        resolves(text@, table@, *unit, eval_answer(out)),
{
    let chars = chars_of(text.as_str());
    if chars.len() >= 2 && chars[0] == '0' && (chars[1] == 'x' || chars[1] == 'b') {
        let radix: u32 = if chars[1] == 'x' {
            16
        } else {
            2
        };
        match parse_radix(&chars, 2, radix) {
            Some(v) => Ok(unit.from_integer(v)),
            None => Err(EvalError::MathError(MathError::InvalidExponentiation)),
        }
    } else {
        let parsed = unit.parse_decimal(text.as_str());
        let out = match parsed {
            Some(n) => Ok(n),
            None => match table.get(text.as_str()) {
                Some(v) => Ok(v),
                None => match global_constants().get(text.as_str()) {
                    Some(v) => Ok(v),
                    None => Err(EvalError::SymbolError(SymbolError::VariableNotFound(text.clone()))),
                },
            },
        };
        assert(eval_answer(out) == named(text@, table@, parsed));
        out
    }
}

fn compute<U: Arithmetic>(unit: &U, function: BinaryFunction, x: Number, y: Number) -> (out: Number)
    ensures
        computes(*unit, function, x, y, out),
{
    unit.binary(function, x, y)
}

fn derive<U: Arithmetic>(unit: &U, function: UnaryFunction, x: Number) -> (out: Number)
    ensures
        derives(*unit, function, x, out),
{
    unit.unary(function, x)
}

/// What the operator `op` with `count` operands yields for `left` and
/// `right`. Where the operator has one operand, `right` is zero.
pub fn apply_operator<U: Arithmetic>(
    op: char,
    count: usize,
    left: Number,
    right: Number,
    unit: &U,
) -> (out: Result<Number, MathError>)
    ensures
        applies(op, count as nat, left, right, *unit, math_answer(out)),
{
    if op == '+' {
        Ok(compute(unit, BinaryFunction::Add, left, right))
    } else if op == '-' {
        if count == 1 {
            Ok(left.neg())
        } else {
            Ok(compute(unit, BinaryFunction::Sub, left, right))
        }
    } else if op == '*' {
        Ok(compute(unit, BinaryFunction::Mul, left, right))
    } else if op == '/' {
        if right.is_zero() {
            Err(MathError::DivisionByZero)
        } else {
            Ok(compute(unit, BinaryFunction::Div, left, right))
        }
    } else if op == '%' {
        if right.is_zero() {
            Err(MathError::ModuloByZero)
        } else {
            Ok(compute(unit, BinaryFunction::Rem, left, right))
        }
    } else if op == '^' {
        if left.is_negative() && right.has_fraction() {
            Err(MathError::InvalidExponentiation)
        } else {
            Ok(compute(unit, BinaryFunction::Pow, left, right))
        }
    } else if op == '√' {
        if count != 2 {
            Err(MathError::InvalidExponentiation)
        } else if left.is_zero() {
            Err(MathError::ZerothRoot)
        } else {
            let inverse = compute(unit, BinaryFunction::Div, Number::one(), left);
            assert(computes(*unit, BinaryFunction::Div, crate::semantics::one(), left, inverse));
            if right.is_negative() && inverse.has_fraction() {
                Err(MathError::NegativeRoot)
            } else {
                Ok(compute(unit, BinaryFunction::Pow, right, inverse))
            }
        }
    } else if op == '&' {
        Ok(Number::from_bool(left.is_truthy() && right.is_truthy()))
    } else if op == '|' {
        Ok(Number::from_bool(left.is_truthy() || right.is_truthy()))
    } else if op == 'x' {
        Ok(Number::from_bool(left.is_truthy() != right.is_truthy()))
    } else if op == 'q' {
        Ok(Number::from_bool(left.is_truthy() == right.is_truthy()))
    } else if op == 'a' {
        Ok(Number::from_bool(!(left.is_truthy() && right.is_truthy())))
    } else if op == 'o' {
        Ok(Number::from_bool(!(left.is_truthy() || right.is_truthy())))
    } else if op == '!' {
        Ok(Number::from_bool(left.is_zero()))
    } else if op == '>' {
        Ok(Number::from_bool(left.gt(right)))
    } else if op == '<' {
        Ok(Number::from_bool(left.lt(right)))
    } else if op == 'g' {
        Ok(Number::from_bool(left.ge(right)))
    } else if op == 'l' {
        Ok(Number::from_bool(left.le(right)))
    } else if op == 'e' {
        let difference = compute(unit, BinaryFunction::Sub, left, right);
        Ok(Number::from_bool(difference.abs().lt(Number::epsilon())))
    } else if op == 'n' {
        let difference = compute(unit, BinaryFunction::Sub, left, right);
        Ok(Number::from_bool(difference.abs().ge(Number::epsilon())))
    } else if op == '.' || op == '=' {
        Ok(right)
    } else {
        Err(MathError::UnsupportedOperator(op))
    }
}

fn unary_function(name: &str) -> (out: Option<UnaryFunction>)
    ensures
        out == unary_named(name@),
{
    if reads(name, "sin") {
        Some(UnaryFunction::Sin)
    } else if reads(name, "cos") {
        Some(UnaryFunction::Cos)
    } else if reads(name, "tan") {
        Some(UnaryFunction::Tan)
    } else if reads(name, "asin") {
        Some(UnaryFunction::Asin)
    } else if reads(name, "acos") {
        Some(UnaryFunction::Acos)
    } else if reads(name, "atan") {
        Some(UnaryFunction::Atan)
    } else if reads(name, "log") {
        Some(UnaryFunction::Ln)
    } else if reads(name, "sqrt") {
        Some(UnaryFunction::Sqrt)
    } else {
        None
    }
}

fn reciprocal_function(name: &str) -> (out: Option<(UnaryFunction, String)>)
    ensures
        match out {
            Some((function, message)) => reciprocal_named(name@) == Some((function, message@)),
            None => reciprocal_named(name@) is None,
        },
{
    if reads(name, "cot") {
        Some((UnaryFunction::Tan, "Division by zero in cotangent".to_owned()))
    } else if reads(name, "sec") {
        Some((UnaryFunction::Cos, "Division by zero in secant".to_owned()))
    } else if reads(name, "csc") {
        Some((UnaryFunction::Sin, "Division by zero in cosecant".to_owned()))
    } else {
        None
    }
}

fn lacks(message: &str) -> (out: Result<Number, MathError>)
    ensures
        math_answer(out) == Err::<Number, crate::error_types::MathErrorModel>(
            crate::semantics::lacking(message@),
        ),
{
    Err(MathError::UnsupportedFunction(message.to_owned()))
}

/// What the built-in function `name` yields for `args`; nothing where
/// `name` is no built-in function.
pub fn call_builtin<U: Arithmetic>(name: &str, args: &Vec<Number>, unit: &U) -> (out: Option<
    Result<Number, MathError>,
>)
    ensures
        match out {
            Some(r) => built_in(name@) && builds(name@, args@, *unit, math_answer(r)),
            None => !built_in(name@),
        },
{
    match unary_function(name) {
        Some(function) => {
            return Some(
                if args.len() == 0 {
                    lacks("one argument is required")
                } else {
                    Ok(derive(unit, function, args[0]))
                },
            );
        },
        None => {},
    }
    match reciprocal_function(name) {
        Some((function, message)) => {
            return Some(
                if args.len() == 0 {
                    lacks("one argument is required")
                } else {
                    let base = derive(unit, function, args[0]);
                    if base.is_zero() {
                        Err(MathError::UnsupportedFunction(message))
                    } else {
                        let v = compute(unit, BinaryFunction::Div, Number::one(), base);
                        assert(computes(
                            *unit,
                            BinaryFunction::Div,
                            crate::semantics::one(),
                            base,
                            v,
                        ));
                        Ok(v)
                    }
                },
            );
        },
        None => {},
    }
    if reads(name, "atan2") {
        Some(
            if args.len() != 2 {
                lacks("atan2 requires two arguments: y, x")
            } else {
                Ok(compute(unit, BinaryFunction::Atan2, args[0], args[1]))
            },
        )
    } else if reads(name, "abs") {
        Some(
            if args.len() == 0 {
                lacks("one argument is required")
            } else {
                Ok(args[0].abs())
            },
        )
    } else if reads(name, "max") {
        Some(
            if args.len() < 2 {
                lacks("two arguments are required")
            } else {
                Ok(compute(unit, BinaryFunction::Max, args[0], args[1]))
            },
        )
    } else if reads(name, "min") {
        Some(
            if args.len() < 2 {
                lacks("two arguments are required")
            } else {
                Ok(compute(unit, BinaryFunction::Min, args[0], args[1]))
            },
        )
    } else if reads(name, "rand") {
        Some(
            if args.len() == 0 {
                Ok(unit.random())
            } else if args.len() == 1 {
                let r = unit.random();
                Ok(compute(unit, BinaryFunction::Mul, r, args[0]))
            } else if args.len() == 2 {
                if args[0].lt(args[1]) {
                    Ok(unit.random_between(args[0], args[1]))
                } else {
                    lacks("min must be less than max")
                }
            } else {
                lacks("rand() accepts 0, 1, or 2 arguments")
            },
        )
    } else {
        None
    }
}

} // verus!
