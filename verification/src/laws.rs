//! Laws of the language: what holds of every program, table and
//! arithmetic unit.

use vstd::prelude::*;
use crate::arithmetic::{Arithmetic, BinaryFunction};
use crate::ast_expression::ExpressionModel;
use crate::ast_statement::{declared_among, ControlFlow, StatementModel};
use crate::error_types::{ExecutionErrorModel, MathErrorModel, ParseErrorModel};
use crate::execution_state::RunState;
use crate::grammar::{
    expression_at, infix_from, infix_power, operand_at, tok, whole_expression, yields,
};
use crate::interpreter::{concluded, proceeds};
use crate::lexical_analyzer::{lex, TokenModel};
use crate::number::Number;
use crate::semantics::{
    applies, branches, computes, chosen, closes, evaluates, evaluates_optional, executes, if_step, initial,
    loop_step, operation_step, round_step, rounds, runs, stepped, stores, Flowed, Valued,
};
use crate::symbol_manager::{global_value, TableModel};

verus! {

/// Division and modulo by zero always fail: whatever the dividend and
/// whatever the unit, a divisor that is a zero (of either sign) yields the
/// error of the operator and never a number.
pub proof fn law_zero_divisor_fails<U: Arithmetic>(
    op: char,
    count: nat,
    left: Number,
    right: Number,
    unit: U,
    out: Result<Number, MathErrorModel>,
)
    requires
        op == '/' || op == '%',
        right.zero(),
        applies(op, count, left, right, unit, out),
    ensures
        op == '/' ==> out == Err::<Number, MathErrorModel>(MathErrorModel::DivisionByZero),
        op == '%' ==> out == Err::<Number, MathErrorModel>(MathErrorModel::ModuloByZero),
{
}

/// A quotient or remainder that has a value had a divisor other than zero:
/// where the evaluation of `left op right` succeeds, the evaluation of
/// `right` within it gave a number that is no zero.
pub proof fn law_quotient_has_divisor<U: Arithmetic>(
    op: char,
    left: ExpressionModel,
    right: ExpressionModel,
    table: TableModel,
    unit: U,
    before: RunState,
    out: Valued,
    after: RunState,
)
    requires
        op == '/' || op == '%',
        evaluates(
            ExpressionModel::Operation(op, seq![left, right]),
            table,
            unit,
            before,
            out,
            after,
        ),
        out is Ok,
    ensures
        exists|l: Number, mid: RunState, r: Number| #[trigger]
            chosen((l, mid), r) && evaluates(left, table, unit, before, Ok(l), mid) && evaluates(
                right,
                table,
                unit,
                mid,
                Ok(r),
                after,
            ) && !r.zero(),
{
    let operands = seq![left, right];
    assert(operands.len() == 2);
    assert(operands[0] == left && operands[1] == right);
    let (l, mid, r) = choose|l: Valued, mid: RunState, r: Valued| #[trigger]
        chosen((l, mid), r) && operation_step(op, operands, table, unit, before, l, mid, r, out, after);
    assert(chosen((l->Ok_0, mid), r->Ok_0));
}

/// Constants are immutable: an assignment to a constant of the table
/// leaves the table as it is. It succeeds only where the new value equals
/// the value that the constant has.
pub proof fn law_constant_keeps_value(table: TableModel, name: Seq<char>, value: Number)
    requires
        table.constants.contains(name),
        table.values.dom().contains(name),
    ensures
        match table.assignment(name, value) {
            Ok(t) => t == table && table.values[name].same(value),
            Err(_) => global_value(name) is Some || !table.values[name].same(value),
        },
        table.constant_declaration(name, value) is Err,
{
}

/// Constants are immutable in programs too: the statement `name = rhs`,
/// run in a table of which `name` is a constant, leaves the table as it
/// is, whatever `rhs` is, and has a value only where that value equals the
/// value of the constant.
pub proof fn law_assignment_keeps_constant<U: Arithmetic>(
    name: Seq<char>,
    rhs: ExpressionModel,
    table: TableModel,
    unit: U,
    before: RunState,
    out: Flowed,
    table_after: TableModel,
    after: RunState,
)
    requires
        table.constants.contains(name),
        table.values.dom().contains(name),
        executes(
            StatementModel::Expression(
                ExpressionModel::Operation('=', seq![ExpressionModel::Literal(name), rhs]),
            ),
            table,
            unit,
            before,
            out,
            table_after,
            after,
        ),
    ensures
        table_after == table,
        out matches Ok((value, flow)) ==> value matches Some(v) && v.same(table.values[name]),
{
    let operands = seq![ExpressionModel::Literal(name), rhs];
    let e = ExpressionModel::Operation('=', operands);
    assert(operands.len() == 2);
    assert(operands[0] == ExpressionModel::Literal(name) && operands[1] == rhs);
    assert(e.assignment() == Some((name, rhs)));
    let value = choose|value: Valued| #[trigger]
        chosen(value, 0int) && evaluates(rhs, table, unit, before, value, after) && stores(
            table,
            name,
            value,
            false,
            out,
            table_after,
        );
    match value {
        Ok(v) => {
            law_constant_keeps_value(table, name, v);
        },
        Err(_) => {},
    }
}

/// Block scoping: the copy-back at the end of a scope changes no name
/// but the variables of the outer table, and of those it changes exactly
/// the ones that the scope did not declare itself, that are no constants
/// of the outer table, and that the scope left with another value.
pub proof fn law_copy_back(
    table: TableModel,
    scope: TableModel,
    shadow: Set<Seq<char>>,
    name: Seq<char>,
)
    ensures
        table.merged(scope, shadow).values.dom() == table.values.dom(),
        table.merged(scope, shadow).constants == table.constants,
        table.merged(scope, shadow).functions == table.functions,
        table.merged(scope, shadow).procedures == table.procedures,
        table.values.dom().contains(name) ==> table.merged(scope, shadow).values[name] == (if !shadow.contains(
            name,
        ) && !table.constants.contains(name) && scope.values.dom().contains(name)
            && !table.values[name].same(scope.values[name]) {
            scope.values[name]
        } else {
            table.values[name]
        }),
{
    assert(table.merged(scope, shadow).values.dom() =~= table.values.dom());
}

/// `end` stops the program: once an `end` statement has fired, no later
/// statement runs, so the table stays as the `end` statement left it, and
/// the program answers with the value of the `end` statement.
pub proof fn law_end_stops_the_program<U: Arithmetic>(
    items: Seq<StatementModel>,
    k: nat,
    table: TableModel,
    unit: U,
    before: RunState,
    done: Result<Option<Number>, ExecutionErrorModel>,
    table_after: TableModel,
    after: RunState,
)
    requires
        k <= items.len(),
        proceeds(items, k, table, unit, before, done, table_after, after),
        done is Ok,
        after.exit.occurred,
    ensures
        proceeds(items, items.len(), table, unit, before, done, table_after, after),
        concluded(done, after) == Ok::<Option<Number>, crate::error_types::InterpreterErrorModel>(
            after.exit.value,
        ),
{
    crate::interpreter::lemma_proceeds_stops(
        items,
        k,
        items.len(),
        table,
        unit,
        before,
        done,
        table_after,
        after,
    );
}

/// The prefix notation that an input reads as, or the error that stops the
/// reading.
pub open spec fn prefix_text(input: Seq<char>) -> Result<Seq<char>, ParseErrorModel> {
    match whole_expression(lex(input), 0) {
        Ok(e) => Ok(e.text()),
        Err(x) => Err(x),
    }
}

/// The prefix notation of a parsed expression is determined by the input:
/// the same characters always read as the same tree, and the same tree is
/// always written the same.
pub proof fn law_prefix_text_is_determined(a: Seq<char>, b: Seq<char>)
    requires
        a =~= b,
    ensures
        lex(a) == lex(b),
        whole_expression(lex(a), 0) == whole_expression(lex(b), 0),
        prefix_text(a) == prefix_text(b),
{
}

/// The tokens of `first lower second higher third`.
pub open spec fn three_operands(
    first: Seq<char>,
    lower: char,
    second: Seq<char>,
    higher: char,
    third: Seq<char>,
) -> Seq<TokenModel> {
    seq![
        TokenModel::Literal(first),
        TokenModel::Operator(lower),
        TokenModel::Literal(second),
        TokenModel::Operator(higher),
        TokenModel::Literal(third),
        TokenModel::EndOfInput,
    ]
}

/// Standard precedence: a product, quotient or remainder holds its
/// operands more strongly than a sum or difference. Whatever the operands
/// `a`, `b` and `c` are, `a + b * c` reads as `(+ a (* b c))` and
/// `a * b + c` reads as `(+ (* a b) c)`; and operators of equal strength
/// group to the left, so that `a - b + c` reads as `(+ (- a b) c)`.
pub proof fn law_products_bind_tighter(
    a: Seq<char>,
    b: Seq<char>,
    c: Seq<char>,
    sum: char,
    other_sum: char,
    product: char,
)
    requires
        sum == '+' || sum == '-',
        other_sum == '+' || other_sum == '-',
        product == '*' || product == '/' || product == '%',
    ensures
        expression_at(three_operands(a, sum, b, product, c), 0, 0) == Ok::<
            (ExpressionModel, nat),
            ParseErrorModel,
        >(
            (
                ExpressionModel::Operation(
                    sum,
                    seq![
                        ExpressionModel::Literal(a),
                        ExpressionModel::Operation(
                            product,
                            seq![ExpressionModel::Literal(b), ExpressionModel::Literal(c)],
                        ),
                    ],
                ),
                5,
            ),
        ),
        expression_at(three_operands(a, product, b, sum, c), 0, 0) == Ok::<
            (ExpressionModel, nat),
            ParseErrorModel,
        >(
            (
                ExpressionModel::Operation(
                    sum,
                    seq![
                        ExpressionModel::Operation(
                            product,
                            seq![ExpressionModel::Literal(a), ExpressionModel::Literal(b)],
                        ),
                        ExpressionModel::Literal(c),
                    ],
                ),
                5,
            ),
        ),
        expression_at(three_operands(a, sum, b, other_sum, c), 0, 0) == Ok::<
            (ExpressionModel, nat),
            ParseErrorModel,
        >(
            (
                ExpressionModel::Operation(
                    other_sum,
                    seq![
                        ExpressionModel::Operation(
                            sum,
                            seq![ExpressionModel::Literal(a), ExpressionModel::Literal(b)],
                        ),
                        ExpressionModel::Literal(c),
                    ],
                ),
                5,
            ),
        ),
{
    lemma_three_operands(a, sum, b, product, c);
    lemma_three_operands(a, product, b, sum, c);
    lemma_three_operands(a, sum, b, other_sum, c);
}

/// How strongly the infix operator `op` holds its left operand.
pub open spec fn left_power(op: char) -> nat {
    match infix_power(op) {
        Some((left, _, _)) => left,
        None => 0,
    }
}

/// Whether the infix operator `op` groups to the left.
pub open spec fn groups_left(op: char) -> bool {
    match infix_power(op) {
        Some((_, _, groups)) => groups,
        None => true,
    }
}

/// How strongly the infix operator `op` holds its right operand.
pub open spec fn right_power(op: char) -> nat {
    match infix_power(op) {
        Some((_, right, _)) => right,
        None => 0,
    }
}

/// Powers group to the right: whatever the operands `a`, `b` and `c` are,
/// `a ^ b ^ c` reads as `(^ a (^ b c))`.
pub proof fn law_powers_group_right(a: Seq<char>, b: Seq<char>, c: Seq<char>)
    ensures
        expression_at(three_operands(a, '^', b, '^', c), 0, 0) == Ok::<
            (ExpressionModel, nat),
            ParseErrorModel,
        >(
            (
                ExpressionModel::Operation(
                    '^',
                    seq![
                        ExpressionModel::Literal(a),
                        ExpressionModel::Operation(
                            '^',
                            seq![ExpressionModel::Literal(b), ExpressionModel::Literal(c)],
                        ),
                    ],
                ),
                5,
            ),
        ),
{
    lemma_three_operands(a, '^', b, '^', c);
}

/// How `first x second y third` reads where `x` and `y` are infix
/// operators: the second operator takes the middle operand unless it
/// yields to the right power of the first.
pub proof fn lemma_three_operands(
    first: Seq<char>,
    x: char,
    second: Seq<char>,
    y: char,
    third: Seq<char>,
)
    requires
        infix_power(x) is Some,
        infix_power(y) is Some,
    ensures
        expression_at(three_operands(first, x, second, y, third), 0, 0) == Ok::<
            (ExpressionModel, nat),
            ParseErrorModel,
        >(
            (
                if !yields(left_power(y), groups_left(y), right_power(x)) {
                    ExpressionModel::Operation(
                        x,
                        seq![
                            ExpressionModel::Literal(first),
                            ExpressionModel::Operation(
                                y,
                                seq![
                                    ExpressionModel::Literal(second),
                                    ExpressionModel::Literal(third),
                                ],
                            ),
                        ],
                    )
                } else {
                    ExpressionModel::Operation(
                        y,
                        seq![
                            ExpressionModel::Operation(
                                x,
                                seq![
                                    ExpressionModel::Literal(first),
                                    ExpressionModel::Literal(second),
                                ],
                            ),
                            ExpressionModel::Literal(third),
                        ],
                    )
                },
                5,
            ),
        ),
{
    let tokens = three_operands(first, x, second, y, third);
    let a = ExpressionModel::Literal(first);
    let b = ExpressionModel::Literal(second);
    let c = ExpressionModel::Literal(third);
    let (lx, rx, gx) = infix_power(x)->0;
    let (ly, ry, gy) = infix_power(y)->0;
    assert(tok(tokens, 0) == TokenModel::Literal(first));
    assert(tok(tokens, 1) == TokenModel::Operator(x));
    assert(tok(tokens, 2) == TokenModel::Literal(second));
    assert(tok(tokens, 3) == TokenModel::Operator(y));
    assert(tok(tokens, 4) == TokenModel::Literal(third));
    assert(tok(tokens, 5) == TokenModel::EndOfInput);
    assert(operand_at(tokens, 0) == Ok::<(ExpressionModel, nat), ParseErrorModel>((a, 1)));
    assert(operand_at(tokens, 2) == Ok::<(ExpressionModel, nat), ParseErrorModel>((b, 1)));
    assert(operand_at(tokens, 4) == Ok::<(ExpressionModel, nat), ParseErrorModel>((c, 1)));
    // The last operand ends the input, whatever the threshold.
    assert forall|min: nat, lhs: ExpressionModel| #[trigger]
        infix_from(tokens, 5, min, lhs) == Ok::<(ExpressionModel, nat), ParseErrorModel>(
            (lhs, 0),
        ) by {}
    assert forall|min: nat| #[trigger]
        expression_at(tokens, 4, min) == Ok::<(ExpressionModel, nat), ParseErrorModel>((c, 1)) by {
        assert(infix_from(tokens, 5, min, c) == Ok::<(ExpressionModel, nat), ParseErrorModel>(
            (c, 0),
        ));
    }
    if !yields(ly, gy, rx) {
        // The second operator claims the middle operand.
        let inner = ExpressionModel::Operation(y, seq![b, c]);
        assert(infix_from(tokens, 3, rx, b) == Ok::<(ExpressionModel, nat), ParseErrorModel>(
            (inner, 2),
        )) by {
            assert(expression_at(tokens, 4, ry) == Ok::<(ExpressionModel, nat), ParseErrorModel>(
                (c, 1),
            ));
            assert(infix_from(tokens, 5, rx, inner) == Ok::<
                (ExpressionModel, nat),
                ParseErrorModel,
            >((inner, 0)));
        }
        assert(expression_at(tokens, 2, rx) == Ok::<(ExpressionModel, nat), ParseErrorModel>(
            (inner, 3),
        ));
        let whole = ExpressionModel::Operation(x, seq![a, inner]);
        assert(infix_from(tokens, 5, 0, whole) == Ok::<(ExpressionModel, nat), ParseErrorModel>(
            (whole, 0),
        ));
        assert(infix_from(tokens, 1, 0, a) == Ok::<(ExpressionModel, nat), ParseErrorModel>(
            (whole, 4),
        ));
    } else {
        // The first operator keeps the middle operand.
        assert(infix_from(tokens, 3, rx, b) == Ok::<(ExpressionModel, nat), ParseErrorModel>(
            (b, 0),
        ));
        assert(expression_at(tokens, 2, rx) == Ok::<(ExpressionModel, nat), ParseErrorModel>(
            (b, 1),
        ));
        let inner = ExpressionModel::Operation(x, seq![a, b]);
        let whole = ExpressionModel::Operation(y, seq![inner, c]);
        assert(expression_at(tokens, 4, ry) == Ok::<(ExpressionModel, nat), ParseErrorModel>(
            (c, 1),
        ));
        assert(infix_from(tokens, 5, 0, whole) == Ok::<(ExpressionModel, nat), ParseErrorModel>(
            (whole, 0),
        ));
        assert(infix_from(tokens, 3, 0, inner) == Ok::<(ExpressionModel, nat), ParseErrorModel>(
            (whole, 2),
        ));
        assert(infix_from(tokens, 1, 0, a) == Ok::<(ExpressionModel, nat), ParseErrorModel>(
            (whole, 4),
        ));
    }
}

/// Whether every constant of the table `before` is a constant of the
/// table `after` and has the value there that it had.
pub open spec fn keeps_constants(before: TableModel, after: TableModel) -> bool {
    forall|name: Seq<char>|
        #![trigger before.constants.contains(name)]
        #![trigger after.constants.contains(name)]
        before.constants.contains(name) && before.values.dom().contains(name)
            ==> after.constants.contains(name) && after.values.dom().contains(name)
            && after.values[name] == before.values[name]
}

/// Storing a value keeps the constants of the table.
pub proof fn lemma_stores_keeps_constants(
    table: TableModel,
    name: Seq<char>,
    value: Valued,
    fixed: bool,
    out: Flowed,
    table_after: TableModel,
)
    requires
        stores(table, name, value, fixed, out, table_after),
    ensures
        keeps_constants(table, table_after),
{
}

/// A branch or loop body keeps the constants of the table in which it
/// stands, whatever it does in its own scope.
pub proof fn lemma_branches_keep_constants<U: Arithmetic>(
    body: StatementModel,
    table: TableModel,
    unit: U,
    before: RunState,
    out: Flowed,
    table_after: TableModel,
    after: RunState,
)
    requires
        branches(body, table, unit, before, out, table_after, after),
    ensures
        keeps_constants(table, table_after),
{
    let (result, scope) = choose|result: Flowed, scope: TableModel| #[trigger]
        chosen(result, scope) && executes(body, table, unit, before, result, scope, after)
            && closes(table, scope, body.declared(), result, out, table_after);
}

/// The whole rounds of a loop keep the constants of the table in which
/// the loop stands.
pub proof fn lemma_rounds_keep_constants<U: Arithmetic>(
    condition: ExpressionModel,
    body: StatementModel,
    n: nat,
    table: TableModel,
    unit: U,
    before: RunState,
    last: Option<Number>,
    table_after: TableModel,
    after: RunState,
)
    requires
        rounds(condition, body, n, table, unit, before, last, table_after, after),
    ensures
        keeps_constants(table, table_after),
    decreases n,
{
    if n > 0 {
        let (e, b, s, c, m, v, f) = choose|
            earlier: Option<Number>,
            between: TableModel,
            start: RunState,
            test: Number,
            mid: RunState,
            value: Option<Number>,
            flow: ControlFlow,
        | #[trigger]
            chosen((earlier, between, start), (test, mid, value, flow)) && round_step(
                condition,
                body,
                n,
                table,
                unit,
                before,
                earlier,
                between,
                start,
                test,
                mid,
                value,
                flow,
                last,
                table_after,
                after,
            );
        lemma_rounds_keep_constants(condition, body, (n - 1) as nat, table, unit, before, e, b, s);
        lemma_branches_keep_constants(body, b, unit, stepped(m), Ok((v, f)), table_after, after);
    }
}

/// Constants are immutable through every statement: whatever a statement
/// does and however it ends, each constant of the table in which it ran
/// is a constant afterwards and has the value that it had.
pub proof fn law_statements_keep_constants<U: Arithmetic>(
    s: StatementModel,
    table: TableModel,
    unit: U,
    before: RunState,
    out: Flowed,
    table_after: TableModel,
    after: RunState,
)
    requires
        executes(s, table, unit, before, out, table_after, after),
    ensures
        keeps_constants(table, table_after),
{
    match s {
        StatementModel::Expression(e) => {
            if e.assignment() is Some {
                let (name, rhs) = e.assignment()->0;
                if table.values.dom().contains(name) {
                    let value = choose|value: Valued| #[trigger]
                        chosen(value, 0int) && evaluates(rhs, table, unit, before, value, after)
                            && stores(table, name, value, false, out, table_after);
                    lemma_stores_keeps_constants(table, name, value, false, out, table_after);
                }
            }
        },
        StatementModel::Block(items) => {
            let (result, scope) = choose|result: Flowed, scope: TableModel| #[trigger]
                chosen(result, scope) && runs(
                    items,
                    items.len(),
                    table,
                    unit,
                    before,
                    result,
                    scope,
                    after,
                ) && closes(
                    table,
                    scope,
                    declared_among(items, items.len()),
                    result,
                    out,
                    table_after,
                );
        },
        StatementModel::If { condition, then_branch, else_branch } => {
            let (test, mid) = choose|test: Valued, mid: RunState| #[trigger]
                chosen(test, mid) && if_step(
                    s,
                    table,
                    unit,
                    before,
                    test,
                    mid,
                    out,
                    table_after,
                    after,
                );
            match test {
                Err(_) => {},
                Ok(c) => {
                    if c.truthy() {
                        lemma_branches_keep_constants(
                            *then_branch,
                            table,
                            unit,
                            mid,
                            out,
                            table_after,
                            after,
                        );
                    } else {
                        match else_branch {
                            Some(other) => {
                                lemma_branches_keep_constants(
                                    *other,
                                    table,
                                    unit,
                                    mid,
                                    out,
                                    table_after,
                                    after,
                                );
                            },
                            None => {},
                        }
                    }
                },
            }
        },
        StatementModel::While { condition, body } => {
            let (n, last, between, start, test, mid, result) = choose|
                n: nat,
                last: Option<Number>,
                between: TableModel,
                start: RunState,
                test: Valued,
                mid: RunState,
                result: Flowed,
            | #[trigger]
                chosen((n, last, between, start), (test, mid, result)) && loop_step(
                    condition,
                    *body,
                    table,
                    unit,
                    before,
                    n,
                    last,
                    between,
                    start,
                    test,
                    mid,
                    result,
                    out,
                    table_after,
                    after,
                );
            lemma_rounds_keep_constants(
                condition,
                *body,
                n,
                table,
                unit,
                before,
                last,
                between,
                start,
            );
            match test {
                Err(_) => {},
                Ok(c) => {
                    if c.truthy() && mid.steps > 0 {
                        lemma_branches_keep_constants(
                            *body,
                            between,
                            unit,
                            stepped(mid),
                            result,
                            table_after,
                            after,
                        );
                    }
                },
            }
        },
        StatementModel::Let { name, initializer } => {
            let value = choose|value: Result<Option<Number>, ExecutionErrorModel>| #[trigger]
                chosen(value, 2int) && evaluates_optional(
                    initializer,
                    table,
                    unit,
                    before,
                    value,
                    after,
                ) && stores(table, name, initial(value), false, out, table_after);
            lemma_stores_keeps_constants(table, name, initial(value), false, out, table_after);
        },
        StatementModel::Const { name, initializer } => {
            let value = choose|value: Valued| #[trigger]
                chosen(value, 3int) && evaluates(initializer, table, unit, before, value, after)
                    && stores(table, name, value, true, out, table_after);
            lemma_stores_keeps_constants(table, name, value, true, out, table_after);
        },
        StatementModel::Return(e) => {
            let value = choose|value: Result<Option<Number>, ExecutionErrorModel>| #[trigger]
                chosen(value, 1int) && evaluates_optional(e, table, unit, before, value, after)
                    && table_after == table && out == crate::semantics::returning(
                    value,
                    table.depth,
                );
        },
        StatementModel::End(e) => {
            let (value, mid) = choose|
                value: Result<Option<Number>, ExecutionErrorModel>,
                mid: RunState,
            | #[trigger]
                chosen(value, mid) && evaluates_optional(e, table, unit, before, value, mid)
                    && table_after == table;
        },
        _ => {},
    }
}

/// Constants are immutable through every program: each constant of the
/// table in which the statements of a program ran is a constant afterwards
/// and has the value that it had.
pub proof fn law_programs_keep_constants<U: Arithmetic>(
    items: Seq<StatementModel>,
    count: nat,
    table: TableModel,
    unit: U,
    before: RunState,
    done: Result<Option<Number>, ExecutionErrorModel>,
    table_after: TableModel,
    after: RunState,
)
    requires
        proceeds(items, count, table, unit, before, done, table_after, after),
    ensures
        keeps_constants(table, table_after),
    decreases count,
{
    if count == 0 || count > items.len() {
    } else {
        let (earlier, between, mid, result) = choose|
            earlier: Result<Option<Number>, ExecutionErrorModel>,
            between: TableModel,
            mid: RunState,
            result: Flowed,
        | #[trigger]
            chosen((earlier, between), (mid, result)) && proceeds(
                items,
                (count - 1) as nat,
                table,
                unit,
                before,
                earlier,
                between,
                mid,
            ) && (if earlier is Err || mid.exit.occurred {
                &&& after == mid
                &&& table_after == between
                &&& done == earlier
            } else {
                &&& executes(items[count - 1], between, unit, mid, result, table_after, after)
                &&& done == crate::interpreter::passed(result)
            });
        law_programs_keep_constants(
            items,
            (count - 1) as nat,
            table,
            unit,
            before,
            earlier,
            between,
            mid,
        );
        if !(earlier is Err || mid.exit.occurred) {
            law_statements_keep_constants(
                items[count - 1],
                between,
                unit,
                mid,
                result,
                table_after,
                after,
            );
        }
    }
}

/// Constants are immutable through [`crate::interpreter::execute`]:
/// whatever the program is and however it ends, each constant of the table
/// is a constant afterwards and has the value that it had.
pub proof fn law_execute_keeps_constants<U: Arithmetic>(
    input: Seq<char>,
    table: TableModel,
    unit: U,
    steps: u64,
    out: Result<Option<Number>, crate::error_types::InterpreterErrorModel>,
    table_after: TableModel,
)
    requires
        crate::interpreter::executed(input, table, unit, steps, out, table_after),
    ensures
        keeps_constants(table, table_after),
{
    match crate::grammar::program(lex(input), 0) {
        Ok(crate::grammar::ProgramModel::Statements(items)) => {
            let (done, after) = choose|
                done: Result<Option<Number>, ExecutionErrorModel>,
                after: RunState,
            | #[trigger]
                chosen(done, after) && proceeds(
                    items,
                    items.len(),
                    table,
                    unit,
                    crate::interpreter::fresh(steps),
                    done,
                    table_after,
                    after,
                ) && out == concluded(done, after);
            law_programs_keep_constants(
                items,
                items.len(),
                table,
                unit,
                crate::interpreter::fresh(steps),
                done,
                table_after,
                after,
            );
        },
        _ => {},
    }
}

/// Block scoping: a block, a conditional and a loop add no name to the
/// table in which they stand, and leave each name that they declare
/// themselves with the value that it had outside.
pub proof fn law_scopes_keep_names<U: Arithmetic>(
    s: StatementModel,
    table: TableModel,
    unit: U,
    before: RunState,
    out: Flowed,
    table_after: TableModel,
    after: RunState,
    name: Seq<char>,
)
    requires
        s is Block || s is If || s is While,
        executes(s, table, unit, before, out, table_after, after),
    ensures
        table_after.values.dom() == table.values.dom(),
        s is Block && s.declared().contains(name) && table.values.dom().contains(name)
            ==> table_after.values[name] == table.values[name],
{
    match s {
        StatementModel::Block(items) => {
            let (result, scope) = choose|result: Flowed, scope: TableModel| #[trigger]
                chosen(result, scope) && runs(
                    items,
                    items.len(),
                    table,
                    unit,
                    before,
                    result,
                    scope,
                    after,
                ) && closes(
                    table,
                    scope,
                    declared_among(items, items.len()),
                    result,
                    out,
                    table_after,
                );
            law_copy_back(table, scope, declared_among(items, items.len()), name);
        },
        StatementModel::If { condition, then_branch, else_branch } => {
            let (test, mid) = choose|test: Valued, mid: RunState| #[trigger]
                chosen(test, mid) && if_step(
                    s,
                    table,
                    unit,
                    before,
                    test,
                    mid,
                    out,
                    table_after,
                    after,
                );
            match test {
                Err(_) => {},
                Ok(c) => {
                    if c.truthy() {
                        lemma_branches_keep_names(
                            *then_branch,
                            table,
                            unit,
                            mid,
                            out,
                            table_after,
                            after,
                        );
                    } else {
                        match else_branch {
                            Some(other) => {
                                lemma_branches_keep_names(
                                    *other,
                                    table,
                                    unit,
                                    mid,
                                    out,
                                    table_after,
                                    after,
                                );
                            },
                            None => {},
                        }
                    }
                },
            }
        },
        StatementModel::While { condition, body } => {
            let (n, last, between, start, test, mid, result) = choose|
                n: nat,
                last: Option<Number>,
                between: TableModel,
                start: RunState,
                test: Valued,
                mid: RunState,
                result: Flowed,
            | #[trigger]
                chosen((n, last, between, start), (test, mid, result)) && loop_step(
                    condition,
                    *body,
                    table,
                    unit,
                    before,
                    n,
                    last,
                    between,
                    start,
                    test,
                    mid,
                    result,
                    out,
                    table_after,
                    after,
                );
            lemma_rounds_keep_names(condition, *body, n, table, unit, before, last, between, start);
            match test {
                Err(_) => {},
                Ok(c) => {
                    if c.truthy() && mid.steps > 0 {
                        lemma_branches_keep_names(
                            *body,
                            between,
                            unit,
                            stepped(mid),
                            result,
                            table_after,
                            after,
                        );
                    }
                },
            }
        },
        _ => {},
    }
}

/// A branch or loop body adds no name to the table in which it stands.
pub proof fn lemma_branches_keep_names<U: Arithmetic>(
    body: StatementModel,
    table: TableModel,
    unit: U,
    before: RunState,
    out: Flowed,
    table_after: TableModel,
    after: RunState,
)
    requires
        branches(body, table, unit, before, out, table_after, after),
    ensures
        table_after.values.dom() == table.values.dom(),
{
    let (result, scope) = choose|result: Flowed, scope: TableModel| #[trigger]
        chosen(result, scope) && executes(body, table, unit, before, result, scope, after)
            && closes(table, scope, body.declared(), result, out, table_after);
    law_copy_back(table, scope, body.declared(), Seq::empty());
}

/// The whole rounds of a loop add no name to the table in which the loop
/// stands.
pub proof fn lemma_rounds_keep_names<U: Arithmetic>(
    condition: ExpressionModel,
    body: StatementModel,
    n: nat,
    table: TableModel,
    unit: U,
    before: RunState,
    last: Option<Number>,
    table_after: TableModel,
    after: RunState,
)
    requires
        rounds(condition, body, n, table, unit, before, last, table_after, after),
    ensures
        table_after.values.dom() == table.values.dom(),
    decreases n,
{
    if n > 0 {
        let (e, b, s, c, m, v, f) = choose|
            earlier: Option<Number>,
            between: TableModel,
            start: RunState,
            test: Number,
            mid: RunState,
            value: Option<Number>,
            flow: ControlFlow,
        | #[trigger]
            chosen((earlier, between, start), (test, mid, value, flow)) && round_step(
                condition,
                body,
                n,
                table,
                unit,
                before,
                earlier,
                between,
                start,
                test,
                mid,
                value,
                flow,
                last,
                table_after,
                after,
            );
        lemma_rounds_keep_names(condition, body, (n - 1) as nat, table, unit, before, e, b, s);
        lemma_branches_keep_names(body, b, unit, stepped(m), Ok((v, f)), table_after, after);
    }
}

/// The root operator takes the degree first: whatever the operands `a`
/// and `b` are, `a √ b` reads as `(√ a b)`.
pub proof fn law_root_reads_degree_first(a: Seq<char>, b: Seq<char>)
    ensures
        expression_at(
            seq![
                TokenModel::Literal(a),
                TokenModel::Operator('√'),
                TokenModel::Literal(b),
                TokenModel::EndOfInput,
            ],
            0,
            0,
        ) == Ok::<(ExpressionModel, nat), ParseErrorModel>(
            (
                ExpressionModel::Operation(
                    '√',
                    seq![ExpressionModel::Literal(a), ExpressionModel::Literal(b)],
                ),
                3,
            ),
        ),
{
    let tokens = seq![
        TokenModel::Literal(a),
        TokenModel::Operator('√'),
        TokenModel::Literal(b),
        TokenModel::EndOfInput,
    ];
    let first = ExpressionModel::Literal(a);
    let second = ExpressionModel::Literal(b);
    let whole = ExpressionModel::Operation('√', seq![first, second]);
    assert(tok(tokens, 0) == TokenModel::Literal(a));
    assert(tok(tokens, 1) == TokenModel::Operator('√'));
    assert(tok(tokens, 2) == TokenModel::Literal(b));
    assert(tok(tokens, 3) == TokenModel::EndOfInput);
    assert(operand_at(tokens, 0) == Ok::<(ExpressionModel, nat), ParseErrorModel>((first, 1)));
    assert(operand_at(tokens, 2) == Ok::<(ExpressionModel, nat), ParseErrorModel>((second, 1)));
    assert(infix_from(tokens, 3, 39, second) == Ok::<(ExpressionModel, nat), ParseErrorModel>(
        (second, 0),
    ));
    assert(expression_at(tokens, 2, 39) == Ok::<(ExpressionModel, nat), ParseErrorModel>(
        (second, 1),
    ));
    assert(infix_from(tokens, 3, 0, whole) == Ok::<(ExpressionModel, nat), ParseErrorModel>(
        (whole, 0),
    ));
    assert(infix_from(tokens, 1, 0, first) == Ok::<(ExpressionModel, nat), ParseErrorModel>(
        (whole, 2),
    ));
}

/// A root is a power: the root of degree `degree` of `radicand`, where it
/// has a value, is what the unit answers for `radicand` raised to what it
/// answers for one divided by `degree`; and the degree is no zero.
pub proof fn law_root_is_power<U: Arithmetic>(
    degree: Number,
    radicand: Number,
    unit: U,
    value: Number,
)
    requires
        applies('√', 2, degree, radicand, unit, Ok(value)),
    ensures
        !degree.zero(),
        exists|inverse: Number| #[trigger]
            computes(unit, BinaryFunction::Div, crate::semantics::one(), degree, inverse)
                && computes(unit, BinaryFunction::Pow, radicand, inverse, value) && !(
            radicand.negative() && inverse.fractional()),
{
}

} // verus!
