//! What programs mean: which results an evaluation may have.
//!
//! The meaning is a relation, not a function: the numbers that arithmetic
//! yields are whatever the [`Arithmetic`] unit answers, and a unit may
//! answer differently each time (it provides the random numbers). Each
//! relation here says, for a tree, a table and the state of the run before,
//! whether a given result, table and state of the run after are possible.
//! The evaluators in [`crate::ast_expression`], [`crate::ast_statement`]
//! and [`crate::interpreter`] only ever produce possible results.

use vstd::prelude::*;
use crate::arithmetic::{Arithmetic, BinaryFunction, UnaryFunction};
use crate::ast_expression::ExpressionModel;
use crate::ast_statement::{declared_among, ControlFlow, StatementModel};
use crate::error_types::{
    ControlFlowErrorModel, EvalError, EvalErrorModel, ExecutionError, ExecutionErrorModel,
    MathError, MathErrorModel, SymbolErrorModel,
};
use crate::execution_state::{ExitState, RunState};
use crate::number::Number;
use crate::symbol_manager::{global_value, CallableModel, TableModel};

verus! {

/// The value of an expression, or the error that stopped its evaluation.
pub type Valued = Result<Number, ExecutionErrorModel>;

/// The value and the control flow of a statement, or the error that
/// stopped its execution.
pub type Flowed = Result<(Option<Number>, ControlFlow), ExecutionErrorModel>;

/// The model of an evaluator's answer.
pub open spec fn valued(out: Result<Number, ExecutionError>) -> Valued {
    match out {
        Ok(v) => Ok(v),
        Err(e) => Err(e@),
    }
}

/// The model of an executor's answer.
pub open spec fn flowed(out: Result<(Option<Number>, ControlFlow), ExecutionError>) -> Flowed {
    match out {
        Ok(r) => Ok(r),
        Err(e) => Err(e@),
    }
}

/// The model of an operator's answer.
pub open spec fn math_answer(out: Result<Number, MathError>) -> Result<Number, MathErrorModel> {
    match out {
        Ok(v) => Ok(v),
        Err(e) => Err(e@),
    }
}

/// The model of a resolver's answer.
pub open spec fn eval_answer(out: Result<Number, EvalError>) -> Result<Number, EvalErrorModel> {
    match out {
        Ok(v) => Ok(v),
        Err(e) => Err(e@),
    }
}

/// Marks the intermediate results that a relation speaks of.
pub open spec fn chosen<A, B>(a: A, b: B) -> bool {
    true
}

/// `0.0`.
pub open spec fn zero() -> Number {
    Number { bits: 0 }
}

/// `1.0`.
pub open spec fn one() -> Number {
    Number { bits: 0x3f80_0000 }
}

/// The machine epsilon.
pub open spec fn epsilon() -> Number {
    Number { bits: 0x3400_0000 }
}

/// An error of arithmetic, as an error of the run.
pub open spec fn math(e: MathErrorModel) -> ExecutionErrorModel {
    ExecutionErrorModel::EvaluationError(EvalErrorModel::MathError(e))
}

/// An error about a symbol, as an error of the run.
pub open spec fn symbol(e: SymbolErrorModel) -> ExecutionErrorModel {
    ExecutionErrorModel::EvaluationError(EvalErrorModel::SymbolError(e))
}

/// An error of control flow, as an error of the run.
pub open spec fn control(e: ControlFlowErrorModel) -> ExecutionErrorModel {
    ExecutionErrorModel::EvaluationError(EvalErrorModel::ControlFlowError(e))
}

/// The run state `run` after one more step.
pub open spec fn stepped(run: RunState) -> RunState {
    RunState { steps: (run.steps - 1) as u64, ..run }
}

/// The run state `run` after an `end` statement with the value `value`.
pub open spec fn ended(run: RunState, value: Option<Number>) -> RunState {
    RunState { exit: ExitState { occurred: true, value }, ..run }
}

/// The value of the digit `c`, in any radix up to 36.
pub open spec fn digit_value(c: char) -> Option<nat> {
    if '0' <= c <= '9' {
        Some((c as u32 - '0' as u32) as nat)
    } else if 'a' <= c <= 'z' {
        Some((c as u32 - 'a' as u32 + 10) as nat)
    } else if 'A' <= c <= 'Z' {
        Some((c as u32 - 'A' as u32 + 10) as nat)
    } else {
        None
    }
}

/// The value of the digits `s` in the radix `radix`; none where a
/// character is no digit of that radix.
pub open spec fn digits_value(s: Seq<char>, radix: nat) -> Option<nat>
    decreases s.len(),
{
    if s.len() == 0 {
        Some(0)
    } else {
        match (digits_value(s.drop_last(), radix), digit_value(s.last())) {
            (Some(v), Some(d)) => if d < radix {
                Some(v * radix + d)
            } else {
                None
            },
            _ => None,
        }
    }
}

/// The 32-bit value of the numeral `s` in the radix `radix`: a `+` may
/// stand before the digits, there is at least one digit, and the value
/// fits in 32 bits.
pub open spec fn radix_value(s: Seq<char>, radix: nat) -> Option<u32> {
    let digits = if s.len() > 0 && s[0] == '+' {
        s.subrange(1, s.len() as int)
    } else {
        s
    };
    if digits.len() == 0 {
        None
    } else {
        match digits_value(digits, radix) {
            Some(v) => if v <= u32::MAX {
                Some(v as u32)
            } else {
                None
            },
            None => None,
        }
    }
}

/// Whether the literal `text` may stand for `out`. A literal is read, in
/// this order, as a hexadecimal numeral behind `0x`, as a binary numeral
/// behind `0b`, as a decimal numeral, as a name of the table, as a name of
/// a constant of every scope.
pub open spec fn resolves<U: Arithmetic>(
    text: Seq<char>,
    table: TableModel,
    unit: U,
    out: Result<Number, EvalErrorModel>,
) -> bool {
    if text.len() >= 2 && text[0] == '0' && (text[1] == 'x' || text[1] == 'b') {
        let radix: nat = if text[1] == 'x' {
            16
        } else {
            2
        };
        match radix_value(text.subrange(2, text.len() as int), radix) {
            Some(v) => out matches Ok(n) && call_ensures(U::from_integer, (&unit, v), n),
            None => out == Err::<Number, EvalErrorModel>(
                EvalErrorModel::MathError(MathErrorModel::InvalidExponentiation),
            ),
        }
    } else {
        exists|numeral: &str, parsed: Option<Number>| #[trigger]
            call_ensures(U::parse_decimal, (&unit, numeral), parsed) && numeral@ == text && out
                == named(text, table, parsed)
    }
}

/// What a literal stands for that the unit read as `parsed`.
pub open spec fn named(text: Seq<char>, table: TableModel, parsed: Option<Number>) -> Result<
    Number,
    EvalErrorModel,
> {
    match parsed {
        Some(n) => Ok(n),
        None => if table.values.dom().contains(text) {
            Ok(table.values[text])
        } else if global_value(text) is Some {
            Ok(global_value(text)->0)
        } else {
            Err(EvalErrorModel::SymbolError(SymbolErrorModel::VariableNotFound(text)))
        },
    }
}

/// Whether the unit may answer `v` for `function` of `x` and `y`.
pub open spec fn computes<U: Arithmetic>(
    unit: U,
    function: BinaryFunction,
    x: Number,
    y: Number,
    v: Number,
) -> bool {
    call_ensures(U::binary, (&unit, function, x, y), v)
}

/// Whether the unit may answer `v` for `function` of `x`.
pub open spec fn derives<U: Arithmetic>(unit: U, function: UnaryFunction, x: Number, v: Number) -> bool {
    call_ensures(U::unary, (&unit, function, x), v)
}

/// Whether `out` is the unit's answer for `function` of `x` and `y`.
pub open spec fn computed<U: Arithmetic>(
    unit: U,
    function: BinaryFunction,
    x: Number,
    y: Number,
    out: Result<Number, MathErrorModel>,
) -> bool {
    out matches Ok(v) && computes(unit, function, x, y, v)
}

/// Whether the operator `op` with `count` operands, applied to `left` and
/// `right`, may yield `out`. Where the operator has one operand, `right`
/// is zero.
pub open spec fn applies<U: Arithmetic>(
    op: char,
    count: nat,
    left: Number,
    right: Number,
    unit: U,
    out: Result<Number, MathErrorModel>,
) -> bool {
    if op == '+' {
        computed(unit, BinaryFunction::Add, left, right, out)
    } else if op == '-' {
        if count == 1 {
            out == Ok::<Number, MathErrorModel>(left.negated())
        } else {
            computed(unit, BinaryFunction::Sub, left, right, out)
        }
    } else if op == '*' {
        computed(unit, BinaryFunction::Mul, left, right, out)
    } else if op == '/' {
        if right.zero() {
            out == Err::<Number, MathErrorModel>(MathErrorModel::DivisionByZero)
        } else {
            computed(unit, BinaryFunction::Div, left, right, out)
        }
    } else if op == '%' {
        if right.zero() {
            out == Err::<Number, MathErrorModel>(MathErrorModel::ModuloByZero)
        } else {
            computed(unit, BinaryFunction::Rem, left, right, out)
        }
    } else if op == '^' {
        if left.negative() && right.fractional() {
            out == Err::<Number, MathErrorModel>(MathErrorModel::InvalidExponentiation)
        } else {
            computed(unit, BinaryFunction::Pow, left, right, out)
        }
    } else if op == '√' {
        if count != 2 {
            out == Err::<Number, MathErrorModel>(MathErrorModel::InvalidExponentiation)
        } else if left.zero() {
            out == Err::<Number, MathErrorModel>(MathErrorModel::ZerothRoot)
        } else {
            exists|inverse: Number| #[trigger]
                computes(unit, BinaryFunction::Div, one(), left, inverse) && (if right.negative()
                    && inverse.fractional() {
                    out == Err::<Number, MathErrorModel>(MathErrorModel::NegativeRoot)
                } else {
                    computed(unit, BinaryFunction::Pow, right, inverse, out)
                })
        }
    } else if op == '&' {
        out == Ok::<Number, MathErrorModel>(Number::truth(left.truthy() && right.truthy()))
    } else if op == '|' {
        out == Ok::<Number, MathErrorModel>(Number::truth(left.truthy() || right.truthy()))
    } else if op == 'x' {
        out == Ok::<Number, MathErrorModel>(Number::truth(left.truthy() != right.truthy()))
    } else if op == 'q' {
        out == Ok::<Number, MathErrorModel>(Number::truth(left.truthy() == right.truthy()))
    } else if op == 'a' {
        out == Ok::<Number, MathErrorModel>(Number::truth(!(left.truthy() && right.truthy())))
    } else if op == 'o' {
        out == Ok::<Number, MathErrorModel>(Number::truth(!(left.truthy() || right.truthy())))
    } else if op == '!' {
        out == Ok::<Number, MathErrorModel>(Number::truth(left.zero()))
    } else if op == '>' {
        out == Ok::<Number, MathErrorModel>(Number::truth(right.less(left)))
    } else if op == '<' {
        out == Ok::<Number, MathErrorModel>(Number::truth(left.less(right)))
    } else if op == 'g' {
        out == Ok::<Number, MathErrorModel>(Number::truth(right.at_most(left)))
    } else if op == 'l' {
        out == Ok::<Number, MathErrorModel>(Number::truth(left.at_most(right)))
    } else if op == 'e' {
        exists|difference: Number| #[trigger]
            computes(unit, BinaryFunction::Sub, left, right, difference) && out == Ok::<
                Number,
                MathErrorModel,
            >(Number::truth(difference.absolute().less(epsilon())))
    } else if op == 'n' {
        exists|difference: Number| #[trigger]
            computes(unit, BinaryFunction::Sub, left, right, difference) && out == Ok::<
                Number,
                MathErrorModel,
            >(Number::truth(epsilon().at_most(difference.absolute())))
    } else if op == '.' || op == '=' {
        out == Ok::<Number, MathErrorModel>(right)
    } else {
        out == Err::<Number, MathErrorModel>(MathErrorModel::UnsupportedOperator(op))
    }
}

/// The function of one number that the name `name` stands for, if any.
pub open spec fn unary_named(name: Seq<char>) -> Option<UnaryFunction> {
    if name == "sin"@ {
        Some(UnaryFunction::Sin)
    } else if name == "cos"@ {
        Some(UnaryFunction::Cos)
    } else if name == "tan"@ {
        Some(UnaryFunction::Tan)
    } else if name == "asin"@ {
        Some(UnaryFunction::Asin)
    } else if name == "acos"@ {
        Some(UnaryFunction::Acos)
    } else if name == "atan"@ {
        Some(UnaryFunction::Atan)
    } else if name == "log"@ {
        Some(UnaryFunction::Ln)
    } else if name == "sqrt"@ {
        Some(UnaryFunction::Sqrt)
    } else {
        None
    }
}

/// The function whose reciprocal the name `name` stands for, if any, with
/// the message for a reciprocal of zero.
pub open spec fn reciprocal_named(name: Seq<char>) -> Option<(UnaryFunction, Seq<char>)> {
    if name == "cot"@ {
        Some((UnaryFunction::Tan, "Division by zero in cotangent"@))
    } else if name == "sec"@ {
        Some((UnaryFunction::Cos, "Division by zero in secant"@))
    } else if name == "csc"@ {
        Some((UnaryFunction::Sin, "Division by zero in cosecant"@))
    } else {
        None
    }
}

/// Whether `name` is the name of a built-in function.
pub open spec fn built_in(name: Seq<char>) -> bool {
    ||| unary_named(name) is Some
    ||| reciprocal_named(name) is Some
    ||| name == "atan2"@
    ||| name == "abs"@
    ||| name == "max"@
    ||| name == "min"@
    ||| name == "rand"@
}

/// The error of a built-in function that lacks arguments.
pub open spec fn lacking(text: Seq<char>) -> MathErrorModel {
    MathErrorModel::UnsupportedFunction(text)
}

/// Whether the built-in function `name`, applied to `args`, may yield
/// `out`. Arguments beyond those that the function takes are not looked at.
pub open spec fn builds<U: Arithmetic>(
    name: Seq<char>,
    args: Seq<Number>,
    unit: U,
    out: Result<Number, MathErrorModel>,
) -> bool {
    if unary_named(name) is Some {
        if args.len() == 0 {
            out == Err::<Number, MathErrorModel>(lacking("one argument is required"@))
        } else {
            out matches Ok(v) && derives(unit, unary_named(name)->0, args[0], v)
        }
    } else if reciprocal_named(name) is Some {
        if args.len() == 0 {
            out == Err::<Number, MathErrorModel>(lacking("one argument is required"@))
        } else {
            let (function, message) = reciprocal_named(name)->0;
            exists|base: Number| #[trigger]
                derives(unit, function, args[0], base) && (if base.zero() {
                    out == Err::<Number, MathErrorModel>(lacking(message))
                } else {
                    computed(unit, BinaryFunction::Div, one(), base, out)
                })
        }
    } else if name == "atan2"@ {
        if args.len() != 2 {
            out == Err::<Number, MathErrorModel>(lacking("atan2 requires two arguments: y, x"@))
        } else {
            computed(unit, BinaryFunction::Atan2, args[0], args[1], out)
        }
    } else if name == "abs"@ {
        if args.len() == 0 {
            out == Err::<Number, MathErrorModel>(lacking("one argument is required"@))
        } else {
            out == Ok::<Number, MathErrorModel>(args[0].absolute())
        }
    } else if name == "max"@ {
        if args.len() < 2 {
            out == Err::<Number, MathErrorModel>(lacking("two arguments are required"@))
        } else {
            computed(unit, BinaryFunction::Max, args[0], args[1], out)
        }
    } else if name == "min"@ {
        if args.len() < 2 {
            out == Err::<Number, MathErrorModel>(lacking("two arguments are required"@))
        } else {
            computed(unit, BinaryFunction::Min, args[0], args[1], out)
        }
    } else if name == "rand"@ {
        if args.len() == 0 {
            out matches Ok(v) && call_ensures(U::random, (&unit,), v)
        } else if args.len() == 1 {
            exists|r: Number| #[trigger]
                call_ensures(U::random, (&unit,), r) && computed(
                    unit,
                    BinaryFunction::Mul,
                    r,
                    args[0],
                    out,
                )
        } else if args.len() == 2 {
            if args[0].less(args[1]) {
                out matches Ok(v) && call_ensures(U::random_between, (&unit, args[0], args[1]), v)
            } else {
                out == Err::<Number, MathErrorModel>(lacking("min must be less than max"@))
            }
        } else {
            out == Err::<Number, MathErrorModel>(lacking("rand() accepts 0, 1, or 2 arguments"@))
        }
    } else {
        false
    }
}

/// Whether `out` is a result of arithmetic that `inner` allows.
pub open spec fn lifted(out: Valued) -> Option<Result<Number, MathErrorModel>> {
    match out {
        Ok(v) => Some(Ok(v)),
        Err(ExecutionErrorModel::EvaluationError(EvalErrorModel::MathError(e))) => Some(Err(e)),
        _ => None,
    }
}

/// The table `scope` after its first `count` parameters got their values.
pub open spec fn bound(
    scope: TableModel,
    params: Seq<Seq<char>>,
    values: Seq<Number>,
    count: nat,
) -> Result<TableModel, EvalErrorModel>
    decreases count,
{
    if count == 0 || count > params.len() || count > values.len() {
        Ok(scope)
    } else {
        match bound(scope, params, values, (count - 1) as nat) {
            Ok(t) => t.assignment(params[count - 1], values[count - 1]),
            Err(e) => Err(e),
        }
    }
}

/// The error for a call with the wrong number of arguments.
pub open spec fn wrong_count(name: Seq<char>, expected: nat, got: nat) -> ExecutionErrorModel {
    control(
        ControlFlowErrorModel::WrongArgumentCount {
            name,
            expected: expected as usize,
            got: got as usize,
        },
    )
}

/// The error for a call of something that is not there.
pub open spec fn not_found(name: Seq<char>) -> ExecutionErrorModel {
    control(ControlFlowErrorModel::FunctionOrProcedureNotFound { name })
}

/// The error for a procedure that is called where a value is needed.
pub open spec fn no_value(name: Seq<char>) -> ExecutionErrorModel {
    control(
        ControlFlowErrorModel::UnimplementedFeature(
            "Procedure '"@ + name + "' cannot be called as a function expression"@,
        ),
    )
}

/// The error for a `return` outside every function and procedure.
pub open spec fn stray_return() -> ExecutionErrorModel {
    control(
        ControlFlowErrorModel::InvalidReturnStatement(
            "Use 'end' instead of 'return' outside of functions/procedures"@,
        ),
    )
}

/// The later of two values: `value` where there is one, else `last`.
pub open spec fn latest(last: Option<Number>, value: Option<Number>) -> Option<Number> {
    if value is Some {
        value
    } else {
        last
    }
}

/// Whether the expression `e`, in the table `table` and with the run in
/// the state `before`, may have the result `out` and leave the run in the
/// state `after`.
pub open spec fn evaluates<U: Arithmetic>(
    e: ExpressionModel,
    table: TableModel,
    unit: U,
    before: RunState,
    out: Valued,
    after: RunState,
) -> bool
    decreases before.steps, 0nat, e, 0nat, 1nat,
{
    match e {
        ExpressionModel::Literal(text) => {
            &&& after == before
            &&& match out {
                Ok(v) => resolves(text, table, unit, Ok(v)),
                Err(ExecutionErrorModel::EvaluationError(x)) => resolves(text, table, unit, Err(x)),
                _ => false,
            }
        },
        ExpressionModel::Operation(op, operands) => {
            if op == '=' && operands.len() == 2 && operands[0] is Literal && global_value(
                operands[0]->Literal_0,
            ) is Some {
                &&& after == before
                &&& out == Err::<Number, ExecutionErrorModel>(
                    symbol(SymbolErrorModel::ImmutableConstant(operands[0]->Literal_0)),
                )
            } else if operands.len() == 0 {
                &&& after == before
                &&& out == Err::<Number, ExecutionErrorModel>(math(MathErrorModel::UnsupportedOperator(op)))
            } else {
                exists|left: Valued, mid: RunState, right: Valued| #[trigger]
                    chosen((left, mid), right) && operation_step(
                        op,
                        operands,
                        table,
                        unit,
                        before,
                        left,
                        mid,
                        right,
                        out,
                        after,
                    )
            }
        },
        ExpressionModel::FunctionCall(name, args) => {
            if table.procedures.dom().contains(name) {
                &&& after == before
                &&& out == Err::<Number, ExecutionErrorModel>(no_value(name))
            } else {
                exists|
                    values: Result<Seq<Number>, ExecutionErrorModel>,
                    mid: RunState,
                    result: Flowed,
                    left: TableModel,
                | #[trigger]
                    chosen((values, mid), (result, left)) && call_step(
                        name,
                        args,
                        table,
                        unit,
                        before,
                        values,
                        mid,
                        result,
                        left,
                        out,
                        after,
                    )
            }
        },
    }
}

/// Whether the operation `op` on `operands` may have the result `out`
/// where its first operand has the result `left` and leaves the run in
/// the state `mid`, and its second operand, if it has one and the first
/// has a value, has the result `right`.
pub open spec fn operation_step<U: Arithmetic>(
    op: char,
    operands: Seq<ExpressionModel>,
    table: TableModel,
    unit: U,
    before: RunState,
    left: Valued,
    mid: RunState,
    right: Valued,
    out: Valued,
    after: RunState,
) -> bool
    decreases before.steps, 0nat, operands, 0nat, 0nat,
{
    &&& operands.len() > 0
    &&& mid.steps <= before.steps
    &&& evaluates(operands[0], table, unit, before, left, mid)
    &&& match left {
        Err(x) => after == mid && out == Err::<Number, ExecutionErrorModel>(x),
        Ok(l) => if operands.len() > 1 {
            &&& evaluates(operands[1], table, unit, mid, right, after)
            &&& match right {
                Err(x) => out == Err::<Number, ExecutionErrorModel>(x),
                Ok(r) => lifted(out) matches Some(inner) && applies(
                    op,
                    operands.len(),
                    l,
                    r,
                    unit,
                    inner,
                ),
            }
        } else {
            &&& after == mid
            &&& lifted(out) matches Some(inner) && applies(op, 1, l, zero(), unit, inner)
        },
    }
}

/// Whether the call of `name` with the arguments `args` may have the
/// result `out` where the arguments have the values `values` and leave the
/// run in the state `mid`, and the body of a function of the table, if it
/// comes to run, answers `result` and leaves its scope as `left`. Built-in
/// functions come before the functions of the table.
pub open spec fn call_step<U: Arithmetic>(
    name: Seq<char>,
    args: Seq<ExpressionModel>,
    table: TableModel,
    unit: U,
    before: RunState,
    values: Result<Seq<Number>, ExecutionErrorModel>,
    mid: RunState,
    result: Flowed,
    left: TableModel,
    out: Valued,
    after: RunState,
) -> bool
    decreases before.steps, 0nat, args, args.len() + 1, 0nat,
{
    &&& mid.steps <= before.steps
    &&& evaluates_all(args, args.len(), table, unit, before, values, mid)
    &&& match values {
        Err(x) => after == mid && out == Err::<Number, ExecutionErrorModel>(x),
        Ok(numbers) => if built_in(name) {
            &&& after == mid
            &&& lifted(out) matches Some(inner) && builds(name, numbers, unit, inner)
        } else if table.functions.dom().contains(name) {
            match prepared(name, table.functions[name], numbers, table, mid) {
                Err(x) => after == mid && out == Err::<Number, ExecutionErrorModel>(x),
                Ok((scope, start)) => {
                    &&& start.steps < before.steps
                    &&& executes(
                        table.functions[name].body,
                        scope,
                        unit,
                        start,
                        result,
                        left,
                        after,
                    )
                    &&& out == returned(result)
                },
            }
        } else {
            &&& after == mid
            &&& out == Err::<Number, ExecutionErrorModel>(not_found(name))
        },
    }
}

/// Whether the first `count` of the expressions `list`, evaluated from the
/// left, may have the values `out`.
pub open spec fn evaluates_all<U: Arithmetic>(
    list: Seq<ExpressionModel>,
    count: nat,
    table: TableModel,
    unit: U,
    before: RunState,
    out: Result<Seq<Number>, ExecutionErrorModel>,
    after: RunState,
) -> bool
    decreases before.steps, 0nat, list, count, 1nat,
{
    if count == 0 || count > list.len() {
        &&& after == before
        &&& out == Ok::<Seq<Number>, ExecutionErrorModel>(Seq::empty())
    } else {
        exists|earlier: Result<Seq<Number>, ExecutionErrorModel>, mid: RunState, value: Valued| #[trigger]
            chosen((earlier, mid), value) && list_step(
                list,
                count,
                table,
                unit,
                before,
                earlier,
                mid,
                value,
                out,
                after,
            )
    }
}

/// Whether the first `count` of the expressions `list` may have the
/// values `out` where those before the last have the values `earlier` and
/// leave the run in the state `mid`, and the last, if it is evaluated, has
/// the result `value`.
pub open spec fn list_step<U: Arithmetic>(
    list: Seq<ExpressionModel>,
    count: nat,
    table: TableModel,
    unit: U,
    before: RunState,
    earlier: Result<Seq<Number>, ExecutionErrorModel>,
    mid: RunState,
    value: Valued,
    out: Result<Seq<Number>, ExecutionErrorModel>,
    after: RunState,
) -> bool
    decreases before.steps, 0nat, list, count, 0nat,
{
    &&& 0 < count <= list.len()
    &&& mid.steps <= before.steps
    &&& evaluates_all(list, (count - 1) as nat, table, unit, before, earlier, mid)
    &&& match earlier {
        Err(x) => after == mid && out == Err::<Seq<Number>, ExecutionErrorModel>(x),
        Ok(numbers) => {
            &&& evaluates(list[count - 1], table, unit, mid, value, after)
            &&& match value {
                Ok(n) => out == Ok::<Seq<Number>, ExecutionErrorModel>(numbers.push(n)),
                Err(x) => out == Err::<Seq<Number>, ExecutionErrorModel>(x),
            }
        },
    }
}

/// What the call of the function `name`, which is `callable`, with the
/// arguments `values` begins with: the scope in which the body runs and
/// the state of the run in which it starts. The call costs one step; the
/// parameters get the values in a scope of its own.
pub open spec fn prepared(
    name: Seq<char>,
    callable: CallableModel,
    values: Seq<Number>,
    table: TableModel,
    before: RunState,
) -> Result<(TableModel, RunState), ExecutionErrorModel> {
    if before.steps == 0 {
        Err(ExecutionErrorModel::MaxIterationsExceeded)
    } else if values.len() != callable.params.len() {
        Err(wrong_count(name, callable.params.len(), values.len()))
    } else {
        match bound(table.called(), callable.params, values, values.len()) {
            Err(x) => Err(ExecutionErrorModel::EvaluationError(x)),
            Ok(scope) => Ok((scope, stepped(before))),
        }
    }
}

/// The value of a function whose body answered `result`: the last value
/// of the body, or zero.
pub open spec fn returned(result: Flowed) -> Valued {
    match result {
        Err(x) => Err(x),
        Ok((Some(v), _)) => Ok(v),
        Ok((None, _)) => Ok(zero()),
    }
}

/// Whether the optional expression `e` may have the value `out`: none
/// where there is no expression.
pub open spec fn evaluates_optional<U: Arithmetic>(
    e: Option<ExpressionModel>,
    table: TableModel,
    unit: U,
    before: RunState,
    out: Result<Option<Number>, ExecutionErrorModel>,
    after: RunState,
) -> bool
    decreases before.steps, 0nat, e, 1nat, 1nat,
{
    match e {
        None => after == before && out == Ok::<Option<Number>, ExecutionErrorModel>(None),
        Some(e) => match out {
            Ok(Some(v)) => evaluates(e, table, unit, before, Ok(v), after),
            Ok(None) => false,
            Err(x) => evaluates(e, table, unit, before, Err(x), after),
        },
    }
}

/// The value that a `let` statement stores whose initializer has the
/// result `value`: zero where there is no initializer.
pub open spec fn initial(value: Result<Option<Number>, ExecutionErrorModel>) -> Valued {
    match value {
        Ok(Some(v)) => Ok(v),
        Ok(None) => Ok(zero()),
        Err(x) => Err(x),
    }
}

/// What a `return` statement answers whose expression has the result
/// `value`, in a scope that `depth` calls enclose.
pub open spec fn returning(value: Result<Option<Number>, ExecutionErrorModel>, depth: nat) -> Flowed {
    match value {
        Err(x) => Err(x),
        Ok(v) => if depth == 0 {
            Err(stray_return())
        } else {
            Ok((v, ControlFlow::Return))
        },
    }
}

/// Whether the statement `s`, in the table `table` and with the run in the
/// state `before`, may have the result `out`, leave the table as
/// `table_after` and the run in the state `after`.
pub open spec fn executes<U: Arithmetic>(
    s: StatementModel,
    table: TableModel,
    unit: U,
    before: RunState,
    out: Flowed,
    table_after: TableModel,
    after: RunState,
) -> bool
    decreases before.steps, 1nat, s, 2nat, 1nat,
{
    match s {
        StatementModel::Expression(e) => {
            if e.assignment() is Some {
                let (name, rhs) = e.assignment()->0;
                if !table.values.dom().contains(name) {
                    &&& after == before
                    &&& table_after == table
                    &&& out == Err::<(Option<Number>, ControlFlow), ExecutionErrorModel>(symbol(SymbolErrorModel::UndeclaredVariable(name)))
                } else {
                    exists|value: Valued| #[trigger]
                        chosen(value, 0int) && evaluates(rhs, table, unit, before, value, after)
                            && stores(table, name, value, false, out, table_after)
                }
            } else {
                &&& table_after == table
                &&& match out {
                    Ok((Some(v), ControlFlow::Normal)) => evaluates(
                        e,
                        table,
                        unit,
                        before,
                        Ok(v),
                        after,
                    ),
                    Ok(_) => false,
                    Err(x) => evaluates(e, table, unit, before, Err(x), after),
                }
            }
        },
        StatementModel::Block(items) => {
            exists|result: Flowed, scope: TableModel| #[trigger]
                chosen(result, scope) && runs(
                    items,
                    items.len(),
                    table,
                    unit,
                    before,
                    result,
                    scope,
                    after,
                ) && closes(table, scope, declared_among(items, items.len()), result, out, table_after)
        },
        StatementModel::If { .. } => {
            exists|test: Valued, mid: RunState| #[trigger]
                chosen(test, mid) && if_step(s, table, unit, before, test, mid, out, table_after, after)
        },
        StatementModel::While { .. } => loops(s, table, unit, before, out, table_after, after),
        StatementModel::Break => {
            &&& after == before
            &&& table_after == table
            &&& out == Ok::<(Option<Number>, ControlFlow), ExecutionErrorModel>((None, ControlFlow::Break))
        },
        StatementModel::Continue => {
            &&& after == before
            &&& table_after == table
            &&& out == Ok::<(Option<Number>, ControlFlow), ExecutionErrorModel>((None, ControlFlow::Continue))
        },
        StatementModel::Return(e) => {
            exists|value: Result<Option<Number>, ExecutionErrorModel>| #[trigger]
                chosen(value, 1int) && evaluates_optional(e, table, unit, before, value, after)
                    && table_after == table && out == returning(value, table.depth)
        },
        StatementModel::End(e) => {
            exists|value: Result<Option<Number>, ExecutionErrorModel>, mid: RunState| #[trigger]
                chosen(value, mid) && evaluates_optional(e, table, unit, before, value, mid)
                    && table_after == table && match value {
                    Err(x) => after == mid && out == Err::<(Option<Number>, ControlFlow), ExecutionErrorModel>(x),
                    Ok(v) => after == ended(mid, v) && out == Ok::<(Option<Number>, ControlFlow), ExecutionErrorModel>((v, ControlFlow::Return)),
                }
        },
        StatementModel::Let { name, initializer } => {
            exists|value: Result<Option<Number>, ExecutionErrorModel>| #[trigger]
                chosen(value, 2int) && evaluates_optional(
                    initializer,
                    table,
                    unit,
                    before,
                    value,
                    after,
                ) && stores(table, name, initial(value), false, out, table_after)
        },
        StatementModel::Const { name, initializer } => {
            exists|value: Valued| #[trigger]
                chosen(value, 3int) && evaluates(initializer, table, unit, before, value, after)
                    && stores(table, name, value, true, out, table_after)
        },
        StatementModel::Function { name, params, body } => {
            &&& after == before
            &&& declares(
                table.function_declaration(name, CallableModel { params, body: *body }),
                table,
                out,
                table_after,
            )
        },
        StatementModel::Procedure { name, params, body } => {
            &&& after == before
            &&& declares(
                table.procedure_declaration(name, CallableModel { params, body: *body }),
                table,
                out,
                table_after,
            )
        },
        StatementModel::ProcedureCall { name, args } => {
            &&& table_after == table
            &&& if table.procedures.dom().contains(name) {
                invokes(name, table.procedures[name], true, args, table, unit, before, out, after)
            } else if table.functions.dom().contains(name) {
                invokes(name, table.functions[name], false, args, table, unit, before, out, after)
            } else {
                &&& after == before
                &&& out == Err::<(Option<Number>, ControlFlow), ExecutionErrorModel>(not_found(name))
            }
        },
    }
}

/// Whether the conditional `s` may answer `out` where its condition has
/// the result `test` and leaves the run in the state `mid`. A conditional
/// whose condition fails and that has no other branch has the value zero.
pub open spec fn if_step<U: Arithmetic>(
    s: StatementModel,
    table: TableModel,
    unit: U,
    before: RunState,
    test: Valued,
    mid: RunState,
    out: Flowed,
    table_after: TableModel,
    after: RunState,
) -> bool
    decreases before.steps, 1nat, s, 1nat, 0nat,
{
    match s {
        StatementModel::If { condition, then_branch, else_branch } => {
            &&& mid.steps <= before.steps
            &&& evaluates(condition, table, unit, before, test, mid)
            &&& match test {
                Err(x) => {
                    &&& after == mid
                    &&& table_after == table
                    &&& out == Err::<(Option<Number>, ControlFlow), ExecutionErrorModel>(x)
                },
                Ok(c) => if c.truthy() {
                    branches(*then_branch, table, unit, mid, out, table_after, after)
                } else {
                    match else_branch {
                        Some(other) => branches(*other, table, unit, mid, out, table_after, after),
                        None => {
                            &&& after == mid
                            &&& table_after == table
                            &&& out == Ok::<(Option<Number>, ControlFlow), ExecutionErrorModel>(
                                (Some(zero()), ControlFlow::Normal),
                            )
                        },
                    }
                },
            }
        },
        _ => false,
    }
}

/// What storing the value `value` under `name` answers: the value itself
/// where the table takes it, as a variable or, with `fixed`, as a new
/// constant.
pub open spec fn stores(
    table: TableModel,
    name: Seq<char>,
    value: Valued,
    fixed: bool,
    out: Flowed,
    table_after: TableModel,
) -> bool {
    match value {
        Err(x) => table_after == table && out == Err::<
            (Option<Number>, ControlFlow),
            ExecutionErrorModel,
        >(x),
        Ok(v) => match (if fixed {
            table.constant_declaration(name, v)
        } else {
            table.assignment(name, v)
        }) {
            Ok(t) => table_after == t && out == Ok::<
                (Option<Number>, ControlFlow),
                ExecutionErrorModel,
            >((Some(v), ControlFlow::Normal)),
            Err(x) => table_after == table && out == Err::<
                (Option<Number>, ControlFlow),
                ExecutionErrorModel,
            >(ExecutionErrorModel::EvaluationError(x)),
        },
    }
}

/// What a declaration answers that the table answered with `declared`.
pub open spec fn declares(
    declared: Result<TableModel, EvalErrorModel>,
    table: TableModel,
    out: Flowed,
    table_after: TableModel,
) -> bool {
    match declared {
        Ok(t) => table_after == t && out == Ok::<
            (Option<Number>, ControlFlow),
            ExecutionErrorModel,
        >((None, ControlFlow::Normal)),
        Err(x) => table_after == table && out == Err::<
            (Option<Number>, ControlFlow),
            ExecutionErrorModel,
        >(ExecutionErrorModel::EvaluationError(x)),
    }
}

/// What the end of a scope answers whose statements answered `result`
/// and left the scope as `scope`: an error leaves the table as it was,
/// anything else is followed by the copy-back.
pub open spec fn closes(
    table: TableModel,
    scope: TableModel,
    shadow: Set<Seq<char>>,
    result: Flowed,
    out: Flowed,
    table_after: TableModel,
) -> bool {
    match result {
        Err(x) => table_after == table && out == Err::<
            (Option<Number>, ControlFlow),
            ExecutionErrorModel,
        >(x),
        Ok(r) => table_after == table.merged(scope, shadow) && out == Ok::<
            (Option<Number>, ControlFlow),
            ExecutionErrorModel,
        >(r),
    }
}

/// Whether the first `count` of the statements `items`, run in order in a
/// scope that starts as `scope`, may answer `out`: the last value that a
/// statement had and the control flow of the last statement that ran. A
/// statement that does not end normally is the last to run.
pub open spec fn runs<U: Arithmetic>(
    items: Seq<StatementModel>,
    count: nat,
    scope: TableModel,
    unit: U,
    before: RunState,
    out: Flowed,
    scope_after: TableModel,
    after: RunState,
) -> bool
    decreases before.steps, 1nat, items, count, 1nat,
{
    if count == 0 || count > items.len() {
        &&& after == before
        &&& scope_after == scope
        &&& out == Ok::<(Option<Number>, ControlFlow), ExecutionErrorModel>((None, ControlFlow::Normal))
    } else {
        exists|earlier: Flowed, between: TableModel, mid: RunState, result: Flowed| #[trigger]
            chosen((earlier, between), (mid, result)) && items_step(
                items,
                count,
                scope,
                unit,
                before,
                earlier,
                between,
                mid,
                result,
                out,
                scope_after,
                after,
            )
    }
}

/// Whether the first `count` of the statements `items` may answer `out`
/// where those before the last answer `earlier`, leave the scope as
/// `between` and the run in the state `mid`, and the last, if it runs,
/// answers `result`.
pub open spec fn items_step<U: Arithmetic>(
    items: Seq<StatementModel>,
    count: nat,
    scope: TableModel,
    unit: U,
    before: RunState,
    earlier: Flowed,
    between: TableModel,
    mid: RunState,
    result: Flowed,
    out: Flowed,
    scope_after: TableModel,
    after: RunState,
) -> bool
    decreases before.steps, 1nat, items, count, 0nat,
{
    &&& 0 < count <= items.len()
    &&& mid.steps <= before.steps
    &&& runs(items, (count - 1) as nat, scope, unit, before, earlier, between, mid)
    &&& match earlier {
        Err(x) => {
            &&& after == mid
            &&& scope_after == between
            &&& out == Err::<(Option<Number>, ControlFlow), ExecutionErrorModel>(x)
        },
        Ok((last, flow)) => if flow != ControlFlow::Normal {
            &&& after == mid
            &&& scope_after == between
            &&& out == earlier
        } else {
            &&& executes(items[count - 1], between, unit, mid, result, scope_after, after)
            &&& match result {
                Err(x) => out == Err::<(Option<Number>, ControlFlow), ExecutionErrorModel>(x),
                Ok((value, next)) => out == Ok::<(Option<Number>, ControlFlow), ExecutionErrorModel>((latest(last, value), next)),
            }
        },
    }
}

/// Whether the branch or loop body `body`, run in a scope of its own that
/// starts as a copy of `table`, may answer `out` and leave the table as
/// `table_after`.
pub open spec fn branches<U: Arithmetic>(
    body: StatementModel,
    table: TableModel,
    unit: U,
    before: RunState,
    out: Flowed,
    table_after: TableModel,
    after: RunState,
) -> bool
    decreases before.steps, 1nat, body, 3nat, 1nat,
{
    exists|result: Flowed, scope: TableModel| #[trigger]
        chosen(result, scope) && executes(body, table, unit, before, result, scope, after)
            && closes(table, scope, body.declared(), result, out, table_after)
}

/// Whether the loop with the condition `condition` and the body `body`
/// may go through `n` whole rounds and then have had `last` as the last
/// value of a round, with the table as `table_after` and the run in the
/// state `after`. A round is whole when its condition holds and its body
/// ends normally or with `continue`. Each round costs one step and runs in
/// a scope of its own.
pub open spec fn rounds<U: Arithmetic>(
    condition: ExpressionModel,
    body: StatementModel,
    n: nat,
    table: TableModel,
    unit: U,
    before: RunState,
    last: Option<Number>,
    table_after: TableModel,
    after: RunState,
) -> bool
    decreases before.steps, 1nat, body, n, 1nat,
{
    if n == 0 {
        &&& after == before
        &&& table_after == table
        &&& last is None
    } else {
        exists|
            earlier: Option<Number>,
            between: TableModel,
            start: RunState,
            test: Number,
            mid: RunState,
            value: Option<Number>,
            flow: ControlFlow,
        | #[trigger]
            chosen((earlier, between, start), (test, mid, value, flow)) && round_step(
                condition,
                body,
                n,
                table,
                unit,
                before,
                earlier,
                between,
                start,
                test,
                mid,
                value,
                flow,
                last,
                table_after,
                after,
            )
    }
}

/// Whether the `n`-th round of a loop is whole and leaves `last`,
/// `table_after` and `after` where the rounds before it left `earlier`,
/// `between` and `start`, its condition had the value `test` and left the
/// run in the state `mid`, and its body had the value `value` and ended
/// with `flow`.
pub open spec fn round_step<U: Arithmetic>(
    condition: ExpressionModel,
    body: StatementModel,
    n: nat,
    table: TableModel,
    unit: U,
    before: RunState,
    earlier: Option<Number>,
    between: TableModel,
    start: RunState,
    test: Number,
    mid: RunState,
    value: Option<Number>,
    flow: ControlFlow,
    last: Option<Number>,
    table_after: TableModel,
    after: RunState,
) -> bool
    decreases before.steps, 1nat, body, n, 0nat,
{
    &&& n > 0
    &&& start.steps <= before.steps
    &&& rounds(condition, body, (n - 1) as nat, table, unit, before, earlier, between, start)
    &&& mid.steps <= start.steps
    &&& evaluates(condition, between, unit, start, Ok(test), mid)
    &&& test.truthy()
    &&& mid.steps > 0
    &&& branches(body, between, unit, stepped(mid), Ok((value, flow)), table_after, after)
    &&& (flow == ControlFlow::Normal || flow == ControlFlow::Continue)
    &&& last == latest(earlier, value)
}

/// Whether the loop `s` may answer `out`: after some whole rounds, the
/// condition fails (the loop ends normally), or the body ends with `break`
/// (the loop ends normally) or with a return (the loop passes it on), or
/// an error or the end of the step budget stops the run. The value of the
/// loop is the last value of a round.
pub open spec fn loops<U: Arithmetic>(
    s: StatementModel,
    table: TableModel,
    unit: U,
    before: RunState,
    out: Flowed,
    table_after: TableModel,
    after: RunState,
) -> bool
    decreases before.steps, 1nat, s, 1nat, 1nat,
{
    match s {
        StatementModel::While { condition, body } => exists|
            n: nat,
            last: Option<Number>,
            between: TableModel,
            start: RunState,
            test: Valued,
            mid: RunState,
            result: Flowed,
        | #[trigger]
            chosen((n, last, between, start), (test, mid, result)) && loop_step(
                condition,
                *body,
                table,
                unit,
                before,
                n,
                last,
                between,
                start,
                test,
                mid,
                result,
                out,
                table_after,
                after,
            ),
        _ => false,
    }
}

/// Whether a loop may answer `out` where `n` whole rounds left `last`,
/// `between` and `start`, the condition then had the result `test` and
/// left the run in the state `mid`, and the body, if it ran once more,
/// answered `result`.
pub open spec fn loop_step<U: Arithmetic>(
    condition: ExpressionModel,
    body: StatementModel,
    table: TableModel,
    unit: U,
    before: RunState,
    n: nat,
    last: Option<Number>,
    between: TableModel,
    start: RunState,
    test: Valued,
    mid: RunState,
    result: Flowed,
    out: Flowed,
    table_after: TableModel,
    after: RunState,
) -> bool
    decreases before.steps, 1nat, body, n + 1, 0nat,
{
    &&& start.steps <= before.steps
    &&& rounds(condition, body, n, table, unit, before, last, between, start)
    &&& mid.steps <= start.steps
    &&& evaluates(condition, between, unit, start, test, mid)
    &&& match test {
        Err(x) => {
            &&& after == mid
            &&& table_after == between
            &&& out == Err::<(Option<Number>, ControlFlow), ExecutionErrorModel>(x)
        },
        Ok(c) => if !c.truthy() {
            &&& after == mid
            &&& table_after == between
            &&& out == Ok::<(Option<Number>, ControlFlow), ExecutionErrorModel>((last, ControlFlow::Normal))
        } else if mid.steps == 0 {
            &&& after == mid
            &&& table_after == between
            &&& out == Err::<(Option<Number>, ControlFlow), ExecutionErrorModel>(ExecutionErrorModel::MaxIterationsExceeded)
        } else {
            &&& branches(body, between, unit, stepped(mid), result, table_after, after)
            &&& match result {
                Err(x) => out == Err::<(Option<Number>, ControlFlow), ExecutionErrorModel>(x),
                Ok((value, flow)) => {
                    &&& flow == ControlFlow::Break || flow == ControlFlow::Return
                    &&& out == Ok::<(Option<Number>, ControlFlow), ExecutionErrorModel>(
                        (
                            latest(last, value),
                            if flow == ControlFlow::Break {
                                ControlFlow::Normal
                            } else {
                                ControlFlow::Return
                            },
                        ),
                    )
                },
            }
        },
    }
}

/// Whether the first `count` arguments `args` of a call statement,
/// evaluated in `table` and stored one by one under the parameter names
/// `params` in a scope that starts as `scope`, may leave the scope as `out`.
pub open spec fn binds<U: Arithmetic>(
    args: Seq<ExpressionModel>,
    params: Seq<Seq<char>>,
    count: nat,
    table: TableModel,
    scope: TableModel,
    unit: U,
    before: RunState,
    out: Result<TableModel, ExecutionErrorModel>,
    after: RunState,
) -> bool
    decreases before.steps, 0nat, args, count, 1nat,
{
    if count == 0 || count > args.len() || count > params.len() {
        &&& after == before
        &&& out == Ok::<TableModel, ExecutionErrorModel>(scope)
    } else {
        exists|earlier: Result<TableModel, ExecutionErrorModel>, mid: RunState, value: Valued| #[trigger]
            chosen((earlier, mid), value) && bind_step(
                args,
                params,
                count,
                table,
                scope,
                unit,
                before,
                earlier,
                mid,
                value,
                out,
                after,
            )
    }
}

/// Whether the first `count` arguments of a call statement may leave the
/// scope as `out` where those before the last leave it as `earlier` and
/// the run in the state `mid`, and the last, if it is evaluated, has the
/// result `value`.
pub open spec fn bind_step<U: Arithmetic>(
    args: Seq<ExpressionModel>,
    params: Seq<Seq<char>>,
    count: nat,
    table: TableModel,
    scope: TableModel,
    unit: U,
    before: RunState,
    earlier: Result<TableModel, ExecutionErrorModel>,
    mid: RunState,
    value: Valued,
    out: Result<TableModel, ExecutionErrorModel>,
    after: RunState,
) -> bool
    decreases before.steps, 0nat, args, count, 0nat,
{
    &&& 0 < count <= args.len()
    &&& count <= params.len()
    &&& mid.steps <= before.steps
    &&& binds(args, params, (count - 1) as nat, table, scope, unit, before, earlier, mid)
    &&& match earlier {
        Err(x) => after == mid && out == Err::<TableModel, ExecutionErrorModel>(x),
        Ok(partly) => {
            &&& evaluates(args[count - 1], table, unit, mid, value, after)
            &&& match value {
                Err(x) => out == Err::<TableModel, ExecutionErrorModel>(x),
                Ok(v) => match partly.assignment(params[count - 1], v) {
                    Ok(t) => out == Ok::<TableModel, ExecutionErrorModel>(t),
                    Err(x) => out == Err::<TableModel, ExecutionErrorModel>(
                        ExecutionErrorModel::EvaluationError(x),
                    ),
                },
            }
        },
    }
}

/// Whether the call statement of `name`, which is `callable` and, with
/// `procedure`, a procedure, may answer `out`. The call costs one step. A
/// procedure has no value, and passes on a `break` or `continue` of its
/// body; a function has the last value of its body, or zero.
pub open spec fn invokes<U: Arithmetic>(
    name: Seq<char>,
    callable: CallableModel,
    procedure: bool,
    args: Seq<ExpressionModel>,
    table: TableModel,
    unit: U,
    before: RunState,
    out: Flowed,
    after: RunState,
) -> bool
    decreases before.steps, 0nat, args, args.len() + 1, 1nat,
{
    if before.steps == 0 {
        &&& after == before
        &&& out == Err::<(Option<Number>, ControlFlow), ExecutionErrorModel>(ExecutionErrorModel::MaxIterationsExceeded)
    } else if args.len() != callable.params.len() {
        &&& after == before
        &&& out == Err::<(Option<Number>, ControlFlow), ExecutionErrorModel>(wrong_count(name, callable.params.len(), args.len()))
    } else {
        exists|
            scope: Result<TableModel, ExecutionErrorModel>,
            mid: RunState,
            result: Flowed,
            left: TableModel,
        | #[trigger]
            chosen((scope, mid), (result, left)) && invoke_step(
                callable,
                procedure,
                args,
                table,
                unit,
                before,
                scope,
                mid,
                result,
                left,
                out,
                after,
            )
    }
}

/// Whether a call statement may answer `out` where the binding of its
/// arguments leaves the scope of the call as `scope` and the run in the
/// state `mid`, and the body, if it runs, answers `result` and leaves its
/// scope as `left`.
pub open spec fn invoke_step<U: Arithmetic>(
    callable: CallableModel,
    procedure: bool,
    args: Seq<ExpressionModel>,
    table: TableModel,
    unit: U,
    before: RunState,
    scope: Result<TableModel, ExecutionErrorModel>,
    mid: RunState,
    result: Flowed,
    left: TableModel,
    out: Flowed,
    after: RunState,
) -> bool
    decreases before.steps, 0nat, args, args.len() + 1, 0nat,
{
    &&& before.steps > 0
    &&& mid.steps <= stepped(before).steps
    &&& binds(
        args,
        callable.params,
        args.len(),
        table,
        table.called(),
        unit,
        stepped(before),
        scope,
        mid,
    )
    &&& match scope {
        Err(x) => after == mid && out == Err::<(Option<Number>, ControlFlow), ExecutionErrorModel>(x),
        Ok(inner) => {
            &&& executes(callable.body, inner, unit, mid, result, left, after)
            &&& out == finished(procedure, result)
        },
    }
}

/// What a call statement answers whose body answered `result`.
pub open spec fn finished(procedure: bool, result: Flowed) -> Flowed {
    match result {
        Err(x) => Err(x),
        Ok((value, flow)) => if procedure {
            if flow == ControlFlow::Break || flow == ControlFlow::Continue {
                Ok((None, flow))
            } else {
                Ok((None, ControlFlow::Normal))
            }
        } else {
            Ok((Some(if value is Some {
                value->0
            } else {
                zero()
            }), ControlFlow::Normal))
        },
    }
}

/// Once the evaluation of a list has failed, it has failed for every
/// longer part of the list.
pub proof fn lemma_evaluates_all_stops<U: Arithmetic>(
    list: Seq<ExpressionModel>,
    k: nat,
    n: nat,
    table: TableModel,
    unit: U,
    before: RunState,
    x: ExecutionErrorModel,
    after: RunState,
)
    requires
        k <= n <= list.len(),
        after.steps <= before.steps,
        evaluates_all(list, k, table, unit, before, Err(x), after),
    ensures
        evaluates_all(list, n, table, unit, before, Err(x), after),
    decreases n - k,
{
    if k < n {
        lemma_evaluates_all_stops(list, k, (n - 1) as nat, table, unit, before, x, after);
        let earlier: Result<Seq<Number>, ExecutionErrorModel> = Err(x);
        let value: Valued = Ok(zero());
        assert(chosen((earlier, after), value));
    }
}

/// Once the binding of arguments has failed, it has failed for every
/// longer part of the arguments.
pub proof fn lemma_binds_stops<U: Arithmetic>(
    args: Seq<ExpressionModel>,
    params: Seq<Seq<char>>,
    k: nat,
    n: nat,
    table: TableModel,
    scope: TableModel,
    unit: U,
    before: RunState,
    x: ExecutionErrorModel,
    after: RunState,
)
    requires
        k <= n <= args.len(),
        n <= params.len(),
        after.steps <= before.steps,
        binds(args, params, k, table, scope, unit, before, Err(x), after),
    ensures
        binds(args, params, n, table, scope, unit, before, Err(x), after),
    decreases n - k,
{
    if k < n {
        lemma_binds_stops(args, params, k, (n - 1) as nat, table, scope, unit, before, x, after);
        let earlier: Result<TableModel, ExecutionErrorModel> = Err(x);
        let value: Valued = Ok(zero());
        assert(chosen((earlier, after), value));
    }
}

/// Once the statements of a scope have stopped, with an error or with a
/// statement that did not end normally, they have stopped for every longer
/// part of the statements.
pub proof fn lemma_runs_stops<U: Arithmetic>(
    items: Seq<StatementModel>,
    k: nat,
    n: nat,
    scope: TableModel,
    unit: U,
    before: RunState,
    out: Flowed,
    scope_after: TableModel,
    after: RunState,
)
    requires
        k <= n <= items.len(),
        after.steps <= before.steps,
        runs(items, k, scope, unit, before, out, scope_after, after),
        match out {
            Err(_) => true,
            Ok((_, flow)) => flow != ControlFlow::Normal,
        },
    ensures
        runs(items, n, scope, unit, before, out, scope_after, after),
    decreases n - k,
{
    if k < n {
        lemma_runs_stops(items, k, (n - 1) as nat, scope, unit, before, out, scope_after, after);
        let result: Flowed = out;
        assert(chosen((out, scope_after), (after, result)));
    }
}

} // verus!
