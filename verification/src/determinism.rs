//! Evaluation has no hidden state: with an arithmetic unit that answers
//! the same question always the same way, each expression and each
//! statement has one result only.

use vstd::prelude::*;
use crate::arithmetic::{Arithmetic, BinaryFunction, UnaryFunction};
use crate::ast_expression::ExpressionModel;
use crate::ast_statement::{declared_among, ControlFlow, StatementModel};
use crate::error_types::{
    EvalErrorModel, ExecutionErrorModel, InterpreterErrorModel, MathErrorModel,
};
use crate::grammar::{program, whole_expression, ProgramModel};
use crate::interpreter::{concluded, evaluated, executed, fresh, passed, proceeds, reported};
use crate::lexical_analyzer::lex;
use crate::execution_state::RunState;
use crate::number::Number;
use crate::semantics::{
    applies, bind_step, binds, branches, builds, call_step, chosen, closes, computes, derives,
    evaluates, evaluates_all, evaluates_optional, executes, if_step, initial, invoke_step,
    invokes, items_step, lifted, list_step, loop_step, loops, operation_step, prepared,
    resolves, round_step, rounds, runs, stepped, stores, Flowed, Valued,
};
use crate::symbol_manager::{CallableModel, TableModel};

verus! {

/// Whether the unit answers each question in one way only: equal
/// arguments never have two different answers.
pub open spec fn determinate<U: Arithmetic>(unit: U) -> bool {
    &&& forall|a: &str, b: &str, x: Option<Number>, y: Option<Number>|
        a@ == b@ && #[trigger] call_ensures(U::parse_decimal, (&unit, a), x)
            && #[trigger] call_ensures(U::parse_decimal, (&unit, b), y) ==> x == y
    &&& forall|v: u32, x: Number, y: Number|
        #[trigger] call_ensures(U::from_integer, (&unit, v), x) && #[trigger] call_ensures(
            U::from_integer,
            (&unit, v),
            y,
        ) ==> x == y
    &&& forall|f: UnaryFunction, a: Number, x: Number, y: Number|
        #[trigger] derives(unit, f, a, x) && #[trigger] derives(unit, f, a, y) ==> x == y
    &&& forall|f: BinaryFunction, a: Number, b: Number, x: Number, y: Number|
        #[trigger] computes(unit, f, a, b, x) && #[trigger] computes(unit, f, a, b, y) ==> x == y
    &&& forall|x: Number, y: Number|
        #[trigger] call_ensures(U::random, (&unit,), x) && #[trigger] call_ensures(
            U::random,
            (&unit,),
            y,
        ) ==> x == y
    &&& forall|a: Number, b: Number, x: Number, y: Number|
        #[trigger] call_ensures(U::random_between, (&unit, a, b), x) && #[trigger] call_ensures(
            U::random_between,
            (&unit, a, b),
            y,
        ) ==> x == y
}

/// With a determinate unit a literal stands for one thing only.
pub proof fn lemma_resolves_determined<U: Arithmetic>(
    text: Seq<char>,
    table: TableModel,
    unit: U,
    first: Result<Number, EvalErrorModel>,
    second: Result<Number, EvalErrorModel>,
)
    requires
        determinate(unit),
        resolves(text, table, unit, first),
        resolves(text, table, unit, second),
    ensures
        first == second,
{
}

/// With a determinate unit an operator yields one thing only.
pub proof fn lemma_applies_determined<U: Arithmetic>(
    op: char,
    count: nat,
    left: Number,
    right: Number,
    unit: U,
    first: Result<Number, MathErrorModel>,
    second: Result<Number, MathErrorModel>,
)
    requires
        determinate(unit),
        applies(op, count, left, right, unit, first),
        applies(op, count, left, right, unit, second),
    ensures
        first == second,
{
}

/// With a determinate unit a built-in function yields one thing only.
pub proof fn lemma_builds_determined<U: Arithmetic>(
    name: Seq<char>,
    args: Seq<Number>,
    unit: U,
    first: Result<Number, MathErrorModel>,
    second: Result<Number, MathErrorModel>,
)
    requires
        determinate(unit),
        builds(name, args, unit, first),
        builds(name, args, unit, second),
    ensures
        first == second,
{
}

proof fn lemma_lifted_determined(first: Valued, second: Valued)
    requires
        lifted(first) is Some,
        lifted(first) == lifted(second),
    ensures
        first == second,
{
}

/// Idempotence: with a determinate unit, an expression evaluated in the
/// same table and from the same state of the run has the same result and
/// leaves the run in the same state, however often it is evaluated.
pub proof fn law_evaluation_is_determined<U: Arithmetic>(
    e: ExpressionModel,
    table: TableModel,
    unit: U,
    before: RunState,
    first: Valued,
    first_after: RunState,
    second: Valued,
    second_after: RunState,
)
    requires
        determinate(unit),
        evaluates(e, table, unit, before, first, first_after),
        evaluates(e, table, unit, before, second, second_after),
    ensures
        first == second,
        first_after == second_after,
    decreases before.steps, 0nat, e, 0nat, 1nat,
{
    match e {
        ExpressionModel::Literal(text) => {
            match first {
                Ok(v) => {
                    match second {
                        Ok(w) => {
                            lemma_resolves_determined(text, table, unit, Ok(v), Ok(w));
                        },
                        Err(ExecutionErrorModel::EvaluationError(y)) => {
                            lemma_resolves_determined(text, table, unit, Ok(v), Err(y));
                        },
                        _ => {},
                    }
                },
                Err(ExecutionErrorModel::EvaluationError(x)) => {
                    match second {
                        Ok(w) => {
                            lemma_resolves_determined(text, table, unit, Err(x), Ok(w));
                        },
                        Err(ExecutionErrorModel::EvaluationError(y)) => {
                            lemma_resolves_determined(text, table, unit, Err(x), Err(y));
                        },
                        _ => {},
                    }
                },
                _ => {},
            }
        },
        ExpressionModel::Operation(op, operands) => {
            if op == '=' && operands.len() == 2 && operands[0] is Literal
                && crate::symbol_manager::global_value(operands[0]->Literal_0) is Some {
            } else if operands.len() == 0 {
            } else {
                let (l1, m1, r1) = choose|left: Valued, mid: RunState, right: Valued| #[trigger]
                    chosen((left, mid), right) && operation_step(
                        op,
                        operands,
                        table,
                        unit,
                        before,
                        left,
                        mid,
                        right,
                        first,
                        first_after,
                    );
                let (l2, m2, r2) = choose|left: Valued, mid: RunState, right: Valued| #[trigger]
                    chosen((left, mid), right) && operation_step(
                        op,
                        operands,
                        table,
                        unit,
                        before,
                        left,
                        mid,
                        right,
                        second,
                        second_after,
                    );
                law_evaluation_is_determined(operands[0], table, unit, before, l1, m1, l2, m2);
                match l1 {
                    Err(_) => {},
                    Ok(l) => {
                        if operands.len() > 1 {
                            law_evaluation_is_determined(
                                operands[1],
                                table,
                                unit,
                                m1,
                                r1,
                                first_after,
                                r2,
                                second_after,
                            );
                            match r1 {
                                Err(_) => {},
                                Ok(r) => {
                                    lemma_applies_determined(
                                        op,
                                        operands.len(),
                                        l,
                                        r,
                                        unit,
                                        lifted(first)->0,
                                        lifted(second)->0,
                                    );
                                    lemma_lifted_determined(first, second);
                                },
                            }
                        } else {
                            lemma_applies_determined(
                                op,
                                1,
                                l,
                                crate::semantics::zero(),
                                unit,
                                lifted(first)->0,
                                lifted(second)->0,
                            );
                            lemma_lifted_determined(first, second);
                        }
                    },
                }
            }
        },
        ExpressionModel::FunctionCall(name, args) => {
            if table.procedures.dom().contains(name) {
            } else {
                let (v1, m1, r1, t1) = choose|
                    values: Result<Seq<Number>, ExecutionErrorModel>,
                    mid: RunState,
                    result: Flowed,
                    left: TableModel,
                | #[trigger]
                    chosen((values, mid), (result, left)) && call_step(
                        name,
                        args,
                        table,
                        unit,
                        before,
                        values,
                        mid,
                        result,
                        left,
                        first,
                        first_after,
                    );
                let (v2, m2, r2, t2) = choose|
                    values: Result<Seq<Number>, ExecutionErrorModel>,
                    mid: RunState,
                    result: Flowed,
                    left: TableModel,
                | #[trigger]
                    chosen((values, mid), (result, left)) && call_step(
                        name,
                        args,
                        table,
                        unit,
                        before,
                        values,
                        mid,
                        result,
                        left,
                        second,
                        second_after,
                    );
                lemma_evaluates_all_determined(
                    args,
                    args.len(),
                    table,
                    unit,
                    before,
                    v1,
                    m1,
                    v2,
                    m2,
                );
                match v1 {
                    Err(_) => {},
                    Ok(numbers) => {
                        if crate::semantics::built_in(name) {
                            lemma_builds_determined(
                                name,
                                numbers,
                                unit,
                                lifted(first)->0,
                                lifted(second)->0,
                            );
                            lemma_lifted_determined(first, second);
                        } else if table.functions.dom().contains(name) {
                            match prepared(name, table.functions[name], numbers, table, m1) {
                                Err(_) => {},
                                Ok((scope, start)) => {
                                    law_execution_is_determined(
                                        table.functions[name].body,
                                        scope,
                                        unit,
                                        start,
                                        r1,
                                        t1,
                                        first_after,
                                        r2,
                                        t2,
                                        second_after,
                                    );
                                },
                            }
                        } else {
                        }
                    },
                }
            }
        },
    }
}

/// With a determinate unit a list of expressions has one list of values
/// only.
pub proof fn lemma_evaluates_all_determined<U: Arithmetic>(
    list: Seq<ExpressionModel>,
    count: nat,
    table: TableModel,
    unit: U,
    before: RunState,
    first: Result<Seq<Number>, ExecutionErrorModel>,
    first_after: RunState,
    second: Result<Seq<Number>, ExecutionErrorModel>,
    second_after: RunState,
)
    requires
        determinate(unit),
        evaluates_all(list, count, table, unit, before, first, first_after),
        evaluates_all(list, count, table, unit, before, second, second_after),
    ensures
        first == second,
        first_after == second_after,
    decreases before.steps, 0nat, list, count, 1nat,
{
    if count == 0 || count > list.len() {
    } else {
        let (e1, m1, v1) = choose|
            earlier: Result<Seq<Number>, ExecutionErrorModel>,
            mid: RunState,
            value: Valued,
        | #[trigger]
            chosen((earlier, mid), value) && list_step(
                list,
                count,
                table,
                unit,
                before,
                earlier,
                mid,
                value,
                first,
                first_after,
            );
        let (e2, m2, v2) = choose|
            earlier: Result<Seq<Number>, ExecutionErrorModel>,
            mid: RunState,
            value: Valued,
        | #[trigger]
            chosen((earlier, mid), value) && list_step(
                list,
                count,
                table,
                unit,
                before,
                earlier,
                mid,
                value,
                second,
                second_after,
            );
        lemma_evaluates_all_determined(
            list,
            (count - 1) as nat,
            table,
            unit,
            before,
            e1,
            m1,
            e2,
            m2,
        );
        match e1 {
            Err(_) => {},
            Ok(_) => {
                law_evaluation_is_determined(
                    list[count - 1],
                    table,
                    unit,
                    m1,
                    v1,
                    first_after,
                    v2,
                    second_after,
                );
            },
        }
    }
}

/// With a determinate unit an optional expression has one value only.
pub proof fn lemma_evaluates_optional_determined<U: Arithmetic>(
    e: Option<ExpressionModel>,
    table: TableModel,
    unit: U,
    before: RunState,
    first: Result<Option<Number>, ExecutionErrorModel>,
    first_after: RunState,
    second: Result<Option<Number>, ExecutionErrorModel>,
    second_after: RunState,
)
    requires
        determinate(unit),
        evaluates_optional(e, table, unit, before, first, first_after),
        evaluates_optional(e, table, unit, before, second, second_after),
    ensures
        first == second,
        first_after == second_after,
    decreases before.steps, 0nat, e, 1nat, 1nat,
{
    match e {
        None => {},
        Some(inner) => {
            let one: Valued = match first {
                Ok(Some(v)) => Ok(v),
                Ok(None) => Ok(crate::semantics::zero()),
                Err(x) => Err(x),
            };
            let two: Valued = match second {
                Ok(Some(v)) => Ok(v),
                Ok(None) => Ok(crate::semantics::zero()),
                Err(x) => Err(x),
            };
            law_evaluation_is_determined(
                inner,
                table,
                unit,
                before,
                one,
                first_after,
                two,
                second_after,
            );
        },
    }
}

/// With a determinate unit, a statement run in the same table and from the
/// same state of the run has the same result and leaves the table and the
/// run in the same state, however often it is run.
pub proof fn law_execution_is_determined<U: Arithmetic>(
    s: StatementModel,
    table: TableModel,
    unit: U,
    before: RunState,
    first: Flowed,
    first_table: TableModel,
    first_after: RunState,
    second: Flowed,
    second_table: TableModel,
    second_after: RunState,
)
    requires
        determinate(unit),
        executes(s, table, unit, before, first, first_table, first_after),
        executes(s, table, unit, before, second, second_table, second_after),
    ensures
        first == second,
        first_table == second_table,
        first_after == second_after,
    decreases before.steps, 1nat, s, 2nat, 1nat,
{
    match s {
        StatementModel::Expression(e) => {
            if e.assignment() is Some {
                let (name, rhs) = e.assignment()->0;
                if !table.values.dom().contains(name) {
                } else {
                    let v1 = choose|value: Valued| #[trigger]
                        chosen(value, 0int) && evaluates(
                            rhs,
                            table,
                            unit,
                            before,
                            value,
                            first_after,
                        ) && stores(table, name, value, false, first, first_table);
                    let v2 = choose|value: Valued| #[trigger]
                        chosen(value, 0int) && evaluates(
                            rhs,
                            table,
                            unit,
                            before,
                            value,
                            second_after,
                        ) && stores(table, name, value, false, second, second_table);
                    law_evaluation_is_determined(
                        rhs,
                        table,
                        unit,
                        before,
                        v1,
                        first_after,
                        v2,
                        second_after,
                    );
                }
            } else {
                let one: Valued = match first {
                    Ok((Some(v), _)) => Ok(v),
                    Ok((None, _)) => Ok(crate::semantics::zero()),
                    Err(x) => Err(x),
                };
                let two: Valued = match second {
                    Ok((Some(v), _)) => Ok(v),
                    Ok((None, _)) => Ok(crate::semantics::zero()),
                    Err(x) => Err(x),
                };
                law_evaluation_is_determined(
                    e,
                    table,
                    unit,
                    before,
                    one,
                    first_after,
                    two,
                    second_after,
                );
            }
        },
        StatementModel::Block(items) => {
            let (r1, s1) = choose|result: Flowed, scope: TableModel| #[trigger]
                chosen(result, scope) && runs(
                    items,
                    items.len(),
                    table,
                    unit,
                    before,
                    result,
                    scope,
                    first_after,
                ) && closes(
                    table,
                    scope,
                    declared_among(items, items.len()),
                    result,
                    first,
                    first_table,
                );
            let (r2, s2) = choose|result: Flowed, scope: TableModel| #[trigger]
                chosen(result, scope) && runs(
                    items,
                    items.len(),
                    table,
                    unit,
                    before,
                    result,
                    scope,
                    second_after,
                ) && closes(
                    table,
                    scope,
                    declared_among(items, items.len()),
                    result,
                    second,
                    second_table,
                );
            lemma_runs_determined(
                items,
                items.len(),
                table,
                unit,
                before,
                r1,
                s1,
                first_after,
                r2,
                s2,
                second_after,
            );
        },
        StatementModel::If { condition, then_branch, else_branch } => {
            let (c1, m1) = choose|test: Valued, mid: RunState| #[trigger]
                chosen(test, mid) && if_step(
                    s,
                    table,
                    unit,
                    before,
                    test,
                    mid,
                    first,
                    first_table,
                    first_after,
                );
            let (c2, m2) = choose|test: Valued, mid: RunState| #[trigger]
                chosen(test, mid) && if_step(
                    s,
                    table,
                    unit,
                    before,
                    test,
                    mid,
                    second,
                    second_table,
                    second_after,
                );
            law_evaluation_is_determined(condition, table, unit, before, c1, m1, c2, m2);
            match c1 {
                Err(_) => {},
                Ok(c) => {
                    if c.truthy() {
                        lemma_branches_determined(
                            *then_branch,
                            table,
                            unit,
                            m1,
                            first,
                            first_table,
                            first_after,
                            second,
                            second_table,
                            second_after,
                        );
                    } else {
                        match else_branch {
                            Some(other) => {
                                lemma_branches_determined(
                                    *other,
                                    table,
                                    unit,
                                    m1,
                                    first,
                                    first_table,
                                    first_after,
                                    second,
                                    second_table,
                                    second_after,
                                );
                            },
                            None => {},
                        }
                    }
                },
            }
        },
        StatementModel::While { .. } => {
            lemma_loops_determined(
                s,
                table,
                unit,
                before,
                first,
                first_table,
                first_after,
                second,
                second_table,
                second_after,
            );
        },
        StatementModel::Break => {},
        StatementModel::Continue => {},
        StatementModel::Return(e) => {
            let v1 = choose|value: Result<Option<Number>, ExecutionErrorModel>| #[trigger]
                chosen(value, 1int) && evaluates_optional(
                    e,
                    table,
                    unit,
                    before,
                    value,
                    first_after,
                ) && first_table == table && first == crate::semantics::returning(
                    value,
                    table.depth,
                );
            let v2 = choose|value: Result<Option<Number>, ExecutionErrorModel>| #[trigger]
                chosen(value, 1int) && evaluates_optional(
                    e,
                    table,
                    unit,
                    before,
                    value,
                    second_after,
                ) && second_table == table && second == crate::semantics::returning(
                    value,
                    table.depth,
                );
            lemma_evaluates_optional_determined(
                e,
                table,
                unit,
                before,
                v1,
                first_after,
                v2,
                second_after,
            );
        },
        StatementModel::End(e) => {
            let (v1, m1) = choose|
                value: Result<Option<Number>, ExecutionErrorModel>,
                mid: RunState,
            | #[trigger]
                chosen(value, mid) && evaluates_optional(e, table, unit, before, value, mid)
                    && first_table == table && match value {
                    Err(x) => first_after == mid && first == Err::<
                        (Option<Number>, ControlFlow),
                        ExecutionErrorModel,
                    >(x),
                    Ok(v) => first_after == crate::semantics::ended(mid, v) && first == Ok::<
                        (Option<Number>, ControlFlow),
                        ExecutionErrorModel,
                    >((v, ControlFlow::Return)),
                };
            let (v2, m2) = choose|
                value: Result<Option<Number>, ExecutionErrorModel>,
                mid: RunState,
            | #[trigger]
                chosen(value, mid) && evaluates_optional(e, table, unit, before, value, mid)
                    && second_table == table && match value {
                    Err(x) => second_after == mid && second == Err::<
                        (Option<Number>, ControlFlow),
                        ExecutionErrorModel,
                    >(x),
                    Ok(v) => second_after == crate::semantics::ended(mid, v) && second == Ok::<
                        (Option<Number>, ControlFlow),
                        ExecutionErrorModel,
                    >((v, ControlFlow::Return)),
                };
            lemma_evaluates_optional_determined(e, table, unit, before, v1, m1, v2, m2);
        },
        StatementModel::Let { name, initializer } => {
            let v1 = choose|value: Result<Option<Number>, ExecutionErrorModel>| #[trigger]
                chosen(value, 2int) && evaluates_optional(
                    initializer,
                    table,
                    unit,
                    before,
                    value,
                    first_after,
                ) && stores(table, name, initial(value), false, first, first_table);
            let v2 = choose|value: Result<Option<Number>, ExecutionErrorModel>| #[trigger]
                chosen(value, 2int) && evaluates_optional(
                    initializer,
                    table,
                    unit,
                    before,
                    value,
                    second_after,
                ) && stores(table, name, initial(value), false, second, second_table);
            lemma_evaluates_optional_determined(
                initializer,
                table,
                unit,
                before,
                v1,
                first_after,
                v2,
                second_after,
            );
        },
        StatementModel::Const { name, initializer } => {
            let v1 = choose|value: Valued| #[trigger]
                chosen(value, 3int) && evaluates(
                    initializer,
                    table,
                    unit,
                    before,
                    value,
                    first_after,
                ) && stores(table, name, value, true, first, first_table);
            let v2 = choose|value: Valued| #[trigger]
                chosen(value, 3int) && evaluates(
                    initializer,
                    table,
                    unit,
                    before,
                    value,
                    second_after,
                ) && stores(table, name, value, true, second, second_table);
            law_evaluation_is_determined(
                initializer,
                table,
                unit,
                before,
                v1,
                first_after,
                v2,
                second_after,
            );
        },
        StatementModel::Function { .. } => {},
        StatementModel::Procedure { .. } => {},
        StatementModel::ProcedureCall { name, args } => {
            if table.procedures.dom().contains(name) {
                lemma_invokes_determined(
                    name,
                    table.procedures[name],
                    true,
                    args,
                    table,
                    unit,
                    before,
                    first,
                    first_after,
                    second,
                    second_after,
                );
            } else if table.functions.dom().contains(name) {
                lemma_invokes_determined(
                    name,
                    table.functions[name],
                    false,
                    args,
                    table,
                    unit,
                    before,
                    first,
                    first_after,
                    second,
                    second_after,
                );
            } else {
            }
        },
    }
}

/// With a determinate unit the statements of a scope have one result only.
pub proof fn lemma_runs_determined<U: Arithmetic>(
    items: Seq<StatementModel>,
    count: nat,
    scope: TableModel,
    unit: U,
    before: RunState,
    first: Flowed,
    first_scope: TableModel,
    first_after: RunState,
    second: Flowed,
    second_scope: TableModel,
    second_after: RunState,
)
    requires
        determinate(unit),
        runs(items, count, scope, unit, before, first, first_scope, first_after),
        runs(items, count, scope, unit, before, second, second_scope, second_after),
    ensures
        first == second,
        first_scope == second_scope,
        first_after == second_after,
    decreases before.steps, 1nat, items, count, 1nat,
{
    if count == 0 || count > items.len() {
    } else {
        let (e1, b1, m1, r1) = choose|
            earlier: Flowed,
            between: TableModel,
            mid: RunState,
            result: Flowed,
        | #[trigger]
            chosen((earlier, between), (mid, result)) && items_step(
                items,
                count,
                scope,
                unit,
                before,
                earlier,
                between,
                mid,
                result,
                first,
                first_scope,
                first_after,
            );
        let (e2, b2, m2, r2) = choose|
            earlier: Flowed,
            between: TableModel,
            mid: RunState,
            result: Flowed,
        | #[trigger]
            chosen((earlier, between), (mid, result)) && items_step(
                items,
                count,
                scope,
                unit,
                before,
                earlier,
                between,
                mid,
                result,
                second,
                second_scope,
                second_after,
            );
        lemma_runs_determined(
            items,
            (count - 1) as nat,
            scope,
            unit,
            before,
            e1,
            b1,
            m1,
            e2,
            b2,
            m2,
        );
        match e1 {
            Err(_) => {},
            Ok((_, flow)) => {
                if flow == ControlFlow::Normal {
                    law_execution_is_determined(
                        items[count - 1],
                        b1,
                        unit,
                        m1,
                        r1,
                        first_scope,
                        first_after,
                        r2,
                        second_scope,
                        second_after,
                    );
                }
            },
        }
    }
}

/// With a determinate unit a branch or loop body has one result only.
pub proof fn lemma_branches_determined<U: Arithmetic>(
    body: StatementModel,
    table: TableModel,
    unit: U,
    before: RunState,
    first: Flowed,
    first_table: TableModel,
    first_after: RunState,
    second: Flowed,
    second_table: TableModel,
    second_after: RunState,
)
    requires
        determinate(unit),
        branches(body, table, unit, before, first, first_table, first_after),
        branches(body, table, unit, before, second, second_table, second_after),
    ensures
        first == second,
        first_table == second_table,
        first_after == second_after,
    decreases before.steps, 1nat, body, 3nat, 1nat,
{
    let (r1, s1) = choose|result: Flowed, scope: TableModel| #[trigger]
        chosen(result, scope) && executes(body, table, unit, before, result, scope, first_after)
            && closes(table, scope, body.declared(), result, first, first_table);
    let (r2, s2) = choose|result: Flowed, scope: TableModel| #[trigger]
        chosen(result, scope) && executes(body, table, unit, before, result, scope, second_after)
            && closes(table, scope, body.declared(), result, second, second_table);
    law_execution_is_determined(
        body,
        table,
        unit,
        before,
        r1,
        s1,
        first_after,
        r2,
        s2,
        second_after,
    );
}

/// With a determinate unit a number of whole rounds of a loop leaves one
/// state only.
pub proof fn lemma_rounds_determined<U: Arithmetic>(
    condition: ExpressionModel,
    body: StatementModel,
    n: nat,
    table: TableModel,
    unit: U,
    before: RunState,
    first: Option<Number>,
    first_table: TableModel,
    first_after: RunState,
    second: Option<Number>,
    second_table: TableModel,
    second_after: RunState,
)
    requires
        determinate(unit),
        rounds(condition, body, n, table, unit, before, first, first_table, first_after),
        rounds(condition, body, n, table, unit, before, second, second_table, second_after),
    ensures
        first == second,
        first_table == second_table,
        first_after == second_after,
    decreases before.steps, 1nat, body, n, 1nat,
{
    if n > 0 {
        let (e1, b1, s1, c1, m1, v1, f1) = choose|
            earlier: Option<Number>,
            between: TableModel,
            start: RunState,
            test: Number,
            mid: RunState,
            value: Option<Number>,
            flow: ControlFlow,
        | #[trigger]
            chosen((earlier, between, start), (test, mid, value, flow)) && round_step(
                condition,
                body,
                n,
                table,
                unit,
                before,
                earlier,
                between,
                start,
                test,
                mid,
                value,
                flow,
                first,
                first_table,
                first_after,
            );
        let (e2, b2, s2, c2, m2, v2, f2) = choose|
            earlier: Option<Number>,
            between: TableModel,
            start: RunState,
            test: Number,
            mid: RunState,
            value: Option<Number>,
            flow: ControlFlow,
        | #[trigger]
            chosen((earlier, between, start), (test, mid, value, flow)) && round_step(
                condition,
                body,
                n,
                table,
                unit,
                before,
                earlier,
                between,
                start,
                test,
                mid,
                value,
                flow,
                second,
                second_table,
                second_after,
            );
        lemma_rounds_determined(
            condition,
            body,
            (n - 1) as nat,
            table,
            unit,
            before,
            e1,
            b1,
            s1,
            e2,
            b2,
            s2,
        );
        law_evaluation_is_determined(condition, b1, unit, s1, Ok(c1), m1, Ok(c2), m2);
        lemma_branches_determined(
            body,
            b1,
            unit,
            stepped(m1),
            Ok((v1, f1)),
            first_table,
            first_after,
            Ok((v2, f2)),
            second_table,
            second_after,
        );
    }
}

/// The whole rounds of a loop begin with fewer whole rounds: what holds
/// after `n` rounds was reached through a state after `k` rounds.
pub proof fn lemma_rounds_earlier<U: Arithmetic>(
    condition: ExpressionModel,
    body: StatementModel,
    n: nat,
    k: nat,
    table: TableModel,
    unit: U,
    before: RunState,
    last: Option<Number>,
    table_after: TableModel,
    after: RunState,
) -> (found: (Option<Number>, TableModel, RunState))
    requires
        k <= n,
        after.steps <= before.steps,
        rounds(condition, body, n, table, unit, before, last, table_after, after),
    ensures
        found.2.steps <= before.steps,
        rounds(condition, body, k, table, unit, before, found.0, found.1, found.2),
    decreases n,
{
    if k == n {
        (last, table_after, after)
    } else {
        let (e, b, s, c, m, v, f) = choose|
            earlier: Option<Number>,
            between: TableModel,
            start: RunState,
            test: Number,
            mid: RunState,
            value: Option<Number>,
            flow: ControlFlow,
        | #[trigger]
            chosen((earlier, between, start), (test, mid, value, flow)) && round_step(
                condition,
                body,
                n,
                table,
                unit,
                before,
                earlier,
                between,
                start,
                test,
                mid,
                value,
                flow,
                last,
                table_after,
                after,
            );
        lemma_rounds_earlier(condition, body, (n - 1) as nat, k, table, unit, before, e, b, s)
    }
}

/// With a determinate unit a loop that stops after `n` whole rounds does
/// not go through more whole rounds than `n`.
proof fn lemma_loop_stops_once<U: Arithmetic>(
    condition: ExpressionModel,
    body: StatementModel,
    table: TableModel,
    unit: U,
    before: RunState,
    n: nat,
    last: Option<Number>,
    between: TableModel,
    start: RunState,
    test: Valued,
    mid: RunState,
    result: Flowed,
    out: Flowed,
    table_after: TableModel,
    after: RunState,
    more: nat,
    other_last: Option<Number>,
    other_table: TableModel,
    other_after: RunState,
)
    requires
        determinate(unit),
        loop_step(
            condition,
            body,
            table,
            unit,
            before,
            n,
            last,
            between,
            start,
            test,
            mid,
            result,
            out,
            table_after,
            after,
        ),
        other_after.steps <= before.steps,
        rounds(condition, body, more, table, unit, before, other_last, other_table, other_after),
    ensures
        more <= n,
    decreases before.steps, 1nat, body, more + 1, 0nat,
{
    if more <= n {
        return ;
    }
    let next = lemma_rounds_earlier(
        condition,
        body,
        more,
        n + 1,
        table,
        unit,
        before,
        other_last,
        other_table,
        other_after,
    );
    let (e, b, s, c, m, v, f) = choose|
        earlier: Option<Number>,
        between: TableModel,
        start: RunState,
        test: Number,
        mid: RunState,
        value: Option<Number>,
        flow: ControlFlow,
    | #[trigger]
        chosen((earlier, between, start), (test, mid, value, flow)) && round_step(
            condition,
            body,
            n + 1,
            table,
            unit,
            before,
            earlier,
            between,
            start,
            test,
            mid,
            value,
            flow,
            next.0,
            next.1,
            next.2,
        );
    lemma_rounds_determined(condition, body, n, table, unit, before, last, between, start, e, b, s);
    law_evaluation_is_determined(condition, between, unit, start, test, mid, Ok(c), m);
    lemma_branches_determined(
        body,
        between,
        unit,
        stepped(mid),
        result,
        table_after,
        after,
        Ok((v, f)),
        next.1,
        next.2,
    );
}

/// With a determinate unit a loop has one result only.
pub proof fn lemma_loops_determined<U: Arithmetic>(
    s: StatementModel,
    table: TableModel,
    unit: U,
    before: RunState,
    first: Flowed,
    first_table: TableModel,
    first_after: RunState,
    second: Flowed,
    second_table: TableModel,
    second_after: RunState,
)
    requires
        determinate(unit),
        loops(s, table, unit, before, first, first_table, first_after),
        loops(s, table, unit, before, second, second_table, second_after),
    ensures
        first == second,
        first_table == second_table,
        first_after == second_after,
    decreases before.steps, 1nat, s, 1nat, 1nat,
{
    match s {
        StatementModel::While { condition, body } => {
            let (n1, l1, b1, s1, c1, m1, r1) = choose|
                n: nat,
                last: Option<Number>,
                between: TableModel,
                start: RunState,
                test: Valued,
                mid: RunState,
                result: Flowed,
            | #[trigger]
                chosen((n, last, between, start), (test, mid, result)) && loop_step(
                    condition,
                    *body,
                    table,
                    unit,
                    before,
                    n,
                    last,
                    between,
                    start,
                    test,
                    mid,
                    result,
                    first,
                    first_table,
                    first_after,
                );
            let (n2, l2, b2, s2, c2, m2, r2) = choose|
                n: nat,
                last: Option<Number>,
                between: TableModel,
                start: RunState,
                test: Valued,
                mid: RunState,
                result: Flowed,
            | #[trigger]
                chosen((n, last, between, start), (test, mid, result)) && loop_step(
                    condition,
                    *body,
                    table,
                    unit,
                    before,
                    n,
                    last,
                    between,
                    start,
                    test,
                    mid,
                    result,
                    second,
                    second_table,
                    second_after,
                );
            if n1 < n2 {
                lemma_loop_stops_once(
                    condition,
                    *body,
                    table,
                    unit,
                    before,
                    n1,
                    l1,
                    b1,
                    s1,
                    c1,
                    m1,
                    r1,
                    first,
                    first_table,
                    first_after,
                    n2,
                    l2,
                    b2,
                    s2,
                );
            } else if n2 < n1 {
                lemma_loop_stops_once(
                    condition,
                    *body,
                    table,
                    unit,
                    before,
                    n2,
                    l2,
                    b2,
                    s2,
                    c2,
                    m2,
                    r2,
                    second,
                    second_table,
                    second_after,
                    n1,
                    l1,
                    b1,
                    s1,
                );
            } else {
                lemma_rounds_determined(
                    condition,
                    *body,
                    n1,
                    table,
                    unit,
                    before,
                    l1,
                    b1,
                    s1,
                    l2,
                    b2,
                    s2,
                );
                law_evaluation_is_determined(condition, b1, unit, s1, c1, m1, c2, m2);
                match c1 {
                    Err(_) => {},
                    Ok(c) => {
                        if c.truthy() && m1.steps > 0 {
                            lemma_branches_determined(
                                *body,
                                b1,
                                unit,
                                stepped(m1),
                                r1,
                                first_table,
                                first_after,
                                r2,
                                second_table,
                                second_after,
                            );
                        }
                    },
                }
            }
        },
        _ => {},
    }
}

/// With a determinate unit the arguments of a call statement are bound in
/// one way only.
pub proof fn lemma_binds_determined<U: Arithmetic>(
    args: Seq<ExpressionModel>,
    params: Seq<Seq<char>>,
    count: nat,
    table: TableModel,
    scope: TableModel,
    unit: U,
    before: RunState,
    first: Result<TableModel, ExecutionErrorModel>,
    first_after: RunState,
    second: Result<TableModel, ExecutionErrorModel>,
    second_after: RunState,
)
    requires
        determinate(unit),
        binds(args, params, count, table, scope, unit, before, first, first_after),
        binds(args, params, count, table, scope, unit, before, second, second_after),
    ensures
        first == second,
        first_after == second_after,
    decreases before.steps, 0nat, args, count, 1nat,
{
    if count == 0 || count > args.len() || count > params.len() {
    } else {
        let (e1, m1, v1) = choose|
            earlier: Result<TableModel, ExecutionErrorModel>,
            mid: RunState,
            value: Valued,
        | #[trigger]
            chosen((earlier, mid), value) && bind_step(
                args,
                params,
                count,
                table,
                scope,
                unit,
                before,
                earlier,
                mid,
                value,
                first,
                first_after,
            );
        let (e2, m2, v2) = choose|
            earlier: Result<TableModel, ExecutionErrorModel>,
            mid: RunState,
            value: Valued,
        | #[trigger]
            chosen((earlier, mid), value) && bind_step(
                args,
                params,
                count,
                table,
                scope,
                unit,
                before,
                earlier,
                mid,
                value,
                second,
                second_after,
            );
        lemma_binds_determined(
            args,
            params,
            (count - 1) as nat,
            table,
            scope,
            unit,
            before,
            e1,
            m1,
            e2,
            m2,
        );
        match e1 {
            Err(_) => {},
            Ok(_) => {
                law_evaluation_is_determined(
                    args[count - 1],
                    table,
                    unit,
                    m1,
                    v1,
                    first_after,
                    v2,
                    second_after,
                );
            },
        }
    }
}

/// With a determinate unit a call statement has one result only.
pub proof fn lemma_invokes_determined<U: Arithmetic>(
    name: Seq<char>,
    callable: CallableModel,
    procedure: bool,
    args: Seq<ExpressionModel>,
    table: TableModel,
    unit: U,
    before: RunState,
    first: Flowed,
    first_after: RunState,
    second: Flowed,
    second_after: RunState,
)
    requires
        determinate(unit),
        invokes(name, callable, procedure, args, table, unit, before, first, first_after),
        invokes(name, callable, procedure, args, table, unit, before, second, second_after),
    ensures
        first == second,
        first_after == second_after,
    decreases before.steps, 0nat, args, args.len() + 1, 1nat,
{
    if before.steps == 0 {
    } else if args.len() != callable.params.len() {
    } else {
        let (s1, m1, r1, t1) = choose|
            scope: Result<TableModel, ExecutionErrorModel>,
            mid: RunState,
            result: Flowed,
            left: TableModel,
        | #[trigger]
            chosen((scope, mid), (result, left)) && invoke_step(
                callable,
                procedure,
                args,
                table,
                unit,
                before,
                scope,
                mid,
                result,
                left,
                first,
                first_after,
            );
        let (s2, m2, r2, t2) = choose|
            scope: Result<TableModel, ExecutionErrorModel>,
            mid: RunState,
            result: Flowed,
            left: TableModel,
        | #[trigger]
            chosen((scope, mid), (result, left)) && invoke_step(
                callable,
                procedure,
                args,
                table,
                unit,
                before,
                scope,
                mid,
                result,
                left,
                second,
                second_after,
            );
        lemma_binds_determined(
            args,
            callable.params,
            args.len(),
            table,
            table.called(),
            unit,
            stepped(before),
            s1,
            m1,
            s2,
            m2,
        );
        match s1 {
            Err(_) => {},
            Ok(inner) => {
                law_execution_is_determined(
                    callable.body,
                    inner,
                    unit,
                    m1,
                    r1,
                    t1,
                    first_after,
                    r2,
                    t2,
                    second_after,
                );
            },
        }
    }
}

/// With a determinate unit the statements of a program have one result
/// only.
pub proof fn lemma_proceeds_determined<U: Arithmetic>(
    items: Seq<StatementModel>,
    count: nat,
    table: TableModel,
    unit: U,
    before: RunState,
    first: Result<Option<Number>, ExecutionErrorModel>,
    first_table: TableModel,
    first_after: RunState,
    second: Result<Option<Number>, ExecutionErrorModel>,
    second_table: TableModel,
    second_after: RunState,
)
    requires
        determinate(unit),
        proceeds(items, count, table, unit, before, first, first_table, first_after),
        proceeds(items, count, table, unit, before, second, second_table, second_after),
    ensures
        first == second,
        first_table == second_table,
        first_after == second_after,
    decreases count,
{
    if count == 0 || count > items.len() {
    } else {
        let (e1, b1, m1, r1) = choose|
            earlier: Result<Option<Number>, ExecutionErrorModel>,
            between: TableModel,
            mid: RunState,
            result: Flowed,
        | #[trigger]
            chosen((earlier, between), (mid, result)) && proceeds(
                items,
                (count - 1) as nat,
                table,
                unit,
                before,
                earlier,
                between,
                mid,
            ) && (if earlier is Err || mid.exit.occurred {
                &&& first_after == mid
                &&& first_table == between
                &&& first == earlier
            } else {
                &&& executes(items[count - 1], between, unit, mid, result, first_table, first_after)
                &&& first == passed(result)
            });
        let (e2, b2, m2, r2) = choose|
            earlier: Result<Option<Number>, ExecutionErrorModel>,
            between: TableModel,
            mid: RunState,
            result: Flowed,
        | #[trigger]
            chosen((earlier, between), (mid, result)) && proceeds(
                items,
                (count - 1) as nat,
                table,
                unit,
                before,
                earlier,
                between,
                mid,
            ) && (if earlier is Err || mid.exit.occurred {
                &&& second_after == mid
                &&& second_table == between
                &&& second == earlier
            } else {
                &&& executes(
                    items[count - 1],
                    between,
                    unit,
                    mid,
                    result,
                    second_table,
                    second_after,
                )
                &&& second == passed(result)
            });
        lemma_proceeds_determined(
            items,
            (count - 1) as nat,
            table,
            unit,
            before,
            e1,
            b1,
            m1,
            e2,
            b2,
            m2,
        );
        if !(e1 is Err || m1.exit.occurred) {
            law_execution_is_determined(
                items[count - 1],
                b1,
                unit,
                m1,
                r1,
                first_table,
                first_after,
                r2,
                second_table,
                second_after,
            );
        }
    }
}

/// Idempotence of [`crate::interpreter::evaluate`]: with a determinate
/// unit, the same input evaluated in the same table with the same budget
/// has the same answer, however often it is evaluated.
pub proof fn law_evaluate_is_determined<U: Arithmetic>(
    input: Seq<char>,
    table: TableModel,
    unit: U,
    steps: u64,
    first: Result<Number, InterpreterErrorModel>,
    second: Result<Number, InterpreterErrorModel>,
)
    requires
        determinate(unit),
        evaluated(input, table, unit, steps, first),
        evaluated(input, table, unit, steps, second),
    ensures
        first == second,
{
    match whole_expression(lex(input), 0) {
        Err(_) => {},
        Ok(e) => {
            let (v1, a1) = choose|value: Valued, after: RunState| #[trigger]
                chosen(value, after) && evaluates(e, table, unit, fresh(steps), value, after)
                    && first == (match value {
                    Ok(v) => Ok(v),
                    Err(x) => Err(reported(x)),
                });
            let (v2, a2) = choose|value: Valued, after: RunState| #[trigger]
                chosen(value, after) && evaluates(e, table, unit, fresh(steps), value, after)
                    && second == (match value {
                    Ok(v) => Ok(v),
                    Err(x) => Err(reported(x)),
                });
            law_evaluation_is_determined(e, table, unit, fresh(steps), v1, a1, v2, a2);
        },
    }
}

/// With a determinate unit, the same program run in the same table with
/// the same budget has the same answer and leaves the same table, however
/// often it is run.
pub proof fn law_execute_is_determined<U: Arithmetic>(
    input: Seq<char>,
    table: TableModel,
    unit: U,
    steps: u64,
    first: Result<Option<Number>, InterpreterErrorModel>,
    first_table: TableModel,
    second: Result<Option<Number>, InterpreterErrorModel>,
    second_table: TableModel,
)
    requires
        determinate(unit),
        executed(input, table, unit, steps, first, first_table),
        executed(input, table, unit, steps, second, second_table),
    ensures
        first == second,
        first_table == second_table,
{
    match program(lex(input), 0) {
        Err(_) => {},
        Ok(ProgramModel::Statements(items)) => {
            let (d1, a1) = choose|
                done: Result<Option<Number>, ExecutionErrorModel>,
                after: RunState,
            | #[trigger]
                chosen(done, after) && proceeds(
                    items,
                    items.len(),
                    table,
                    unit,
                    fresh(steps),
                    done,
                    first_table,
                    after,
                ) && first == concluded(done, after);
            let (d2, a2) = choose|
                done: Result<Option<Number>, ExecutionErrorModel>,
                after: RunState,
            | #[trigger]
                chosen(done, after) && proceeds(
                    items,
                    items.len(),
                    table,
                    unit,
                    fresh(steps),
                    done,
                    second_table,
                    after,
                ) && second == concluded(done, after);
            lemma_proceeds_determined(
                items,
                items.len(),
                table,
                unit,
                fresh(steps),
                d1,
                first_table,
                a1,
                d2,
                second_table,
                a2,
            );
        },
        Ok(ProgramModel::Expression(e)) => {
            let (v1, a1) = choose|value: Valued, after: RunState| #[trigger]
                chosen(value, after) && evaluates(e, table, unit, fresh(steps), value, after)
                    && first == (match value {
                    Ok(v) => Ok(Some(v)),
                    Err(x) => Err(reported(x)),
                });
            let (v2, a2) = choose|value: Valued, after: RunState| #[trigger]
                chosen(value, after) && evaluates(e, table, unit, fresh(steps), value, after)
                    && second == (match value {
                    Ok(v) => Ok(Some(v)),
                    Err(x) => Err(reported(x)),
                });
            law_evaluation_is_determined(e, table, unit, fresh(steps), v1, a1, v2, a2);
        },
    }
}

} // verus!
