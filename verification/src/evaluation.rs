//! The evaluators: they walk a tree and compute one of the results that
//! [`crate::semantics`] allows.

use vstd::prelude::*;
use crate::arithmetic::Arithmetic;
use crate::ast_expression::{expression_models, lemma_expression_models, Expression, ExpressionModel};
use crate::ast_statement::{
    collect_declared_vars, lemma_statement_models, statement_models, texts, ControlFlow,
    Statement, StatementModel,
};
use crate::error_types::{
    ControlFlowError, EvalError, ExecutionError, ExecutionErrorModel, MathError, SymbolError,
};
use crate::execution_state::{ExitState, RunState};
use crate::number::Number;
use crate::operators::{apply_operator, call_builtin, resolve_literal};
use crate::semantics::{
    binds, bound, branches, chosen, evaluates, evaluates_all, evaluates_optional, executes,
    flowed, invokes, lemma_binds_stops, lemma_evaluates_all_stops,
    lemma_runs_stops, loops, rounds, runs, valued, zero, Flowed,
    Valued,
};
use crate::symbol_manager::{global_constants, SymbolTable, TableModel};
use crate::text::push_text;

verus! {

/// The model of the answer of an evaluator of lists.
pub open spec fn numbers_answer(out: Result<Vec<Number>, ExecutionError>) -> Result<
    Seq<Number>,
    ExecutionErrorModel,
> {
    match out {
        Ok(list) => Ok(list@),
        Err(e) => Err(e@),
    }
}

/// The model of the answer of an evaluator of optional expressions.
pub open spec fn optional_answer(out: Result<Option<Number>, ExecutionError>) -> Result<
    Option<Number>,
    ExecutionErrorModel,
> {
    match out {
        Ok(v) => Ok(v),
        Err(e) => Err(e@),
    }
}

fn math_failure(e: MathError) -> (out: ExecutionError)
    ensures
        out@ == crate::semantics::math(e@),
{
    ExecutionError::EvaluationError(EvalError::MathError(e))
}

fn symbol_failure(e: SymbolError) -> (out: ExecutionError)
    ensures
        out@ == crate::semantics::symbol(e@),
{
    ExecutionError::EvaluationError(EvalError::SymbolError(e))
}

fn control_failure(e: ControlFlowError) -> (out: ExecutionError)
    ensures
        out@ == crate::semantics::control(e@),
{
    ExecutionError::EvaluationError(EvalError::ControlFlowError(e))
}

fn lift(answer: Result<Number, MathError>) -> (out: Result<Number, ExecutionError>)
    ensures
        crate::semantics::lifted(valued(out)) == Some(crate::semantics::math_answer(answer)),
{
    match answer {
        Ok(v) => Ok(v),
        Err(e) => Err(math_failure(e)),
    }
}

fn not_found(name: &String) -> (out: ExecutionError)
    ensures
        out@ == crate::semantics::not_found(name@),
{
    control_failure(ControlFlowError::FunctionOrProcedureNotFound { name: name.clone() })
}

fn wrong_count(name: &String, expected: usize, got: usize) -> (out: ExecutionError)
    ensures
        out@ == crate::semantics::wrong_count(name@, expected as nat, got as nat),
{
    control_failure(ControlFlowError::WrongArgumentCount { name: name.clone(), expected, got })
}

fn no_value(name: &String) -> (out: ExecutionError)
    ensures
        out@ == crate::semantics::no_value(name@),
{
    let mut message = String::new();
    push_text(&mut message, "Procedure '");
    push_text(&mut message, name.as_str());
    push_text(&mut message, "' cannot be called as a function expression");
    control_failure(ControlFlowError::UnimplementedFeature(message))
}

/// Gives the first parameters of `params` the values `values`, in `scope`.
#[verifier::loop_isolation(false)]
fn bind_values(scope: &mut SymbolTable, params: &Vec<String>, values: &Vec<Number>) -> (out: Result<
    (),
    EvalError,
>)
    requires
        old(scope).wf(),
        params.len() == values.len(),
    ensures
        final(scope).wf(),
        match bound(old(scope)@, texts(params@), values@, values.len() as nat) {
            Ok(t) => out is Ok && final(scope)@ == t,
            Err(x) => out matches Err(e) && e@ == x,
        },
{
    let ghost start = scope@;
    let mut i: usize = 0;
    while i < values.len()
        invariant
            i <= values.len(),
            params.len() == values.len(),
            scope.wf(),
            bound(start, texts(params@), values@, i as nat) == Ok::<
                TableModel,
                crate::error_types::EvalErrorModel,
            >(scope@),
        decreases values.len() - i,
    {
        proof {
            assert(texts(params@)[i as int] == params@[i as int]@);
        }
        let ghost partly = scope@;
        match scope.set_variable(params[i].clone(), values[i]) {
            Ok(()) => {},
            Err(e) => {
                proof {
                    assert(bound(start, texts(params@), values@, (i + 1) as nat)
                        == partly.assignment(texts(params@)[i as int], values@[i as int]));
                    lemma_bound_stops(
                        start,
                        texts(params@),
                        values@,
                        (i + 1) as nat,
                        values.len() as nat,
                    );
                }
                return Err(e);
            },
        }
        i += 1;
    }
    Ok(())
}

proof fn lemma_bound_stops(
    scope: TableModel,
    params: Seq<Seq<char>>,
    values: Seq<Number>,
    k: nat,
    n: nat,
)
    requires
        k <= n <= values.len(),
        n <= params.len(),
        bound(scope, params, values, k) is Err,
    ensures
        bound(scope, params, values, n) == bound(scope, params, values, k),
    decreases n - k,
{
    if k < n {
        lemma_bound_stops(scope, params, values, k, (n - 1) as nat);
    }
}

/// The values of the expressions `list`, evaluated from the left.
#[verifier::loop_isolation(false)]
fn evaluate_all<U: Arithmetic>(
    list: &Vec<Expression>,
    context: &SymbolTable,
    run: &mut RunState,
    unit: &U,
) -> (out: Result<Vec<Number>, ExecutionError>)
    requires
        context.wf(),
    ensures
        final(run).steps <= old(run).steps,
        evaluates_all(
            expression_models(list@),
            list.len() as nat,
            context@,
            *unit,
            *old(run),
            numbers_answer(out),
            *final(run),
        ),
    decreases old(run).steps, 0nat, list, 0nat,
{
    let ghost start = *run;
    let ghost models = expression_models(list@);
    let mut values: Vec<Number> = Vec::new();
    let mut i: usize = 0;
    proof {
        lemma_expression_models(list@);
    }
    while i < list.len()
        invariant
            i <= list.len(),
            values.len() == i,
            run.steps <= start.steps,
            evaluates_all(
                models,
                i as nat,
                context@,
                *unit,
                start,
                Ok::<Seq<Number>, ExecutionErrorModel>(values@),
                *run,
            ),
        decreases list.len() - i,
    {
        let ghost mid = *run;
        let ghost earlier: Result<Seq<Number>, ExecutionErrorModel> = Ok(values@);
        let value = list[i].evaluate(context, run, unit);
        proof {
            assert(chosen((earlier, mid), valued(value)));
        }
        match value {
            Ok(n) => {
                values.push(n);
            },
            Err(e) => {
                proof {
                    assert(evaluates_all(
                        models,
                        (i + 1) as nat,
                        context@,
                        *unit,
                        start,
                        Err::<Seq<Number>, ExecutionErrorModel>(e@),
                        *run,
                    ));
                    lemma_evaluates_all_stops(
                        models,
                        (i + 1) as nat,
                        list.len() as nat,
                        context@,
                        *unit,
                        start,
                        e@,
                        *run,
                    );
                }
                return Err(e);
            },
        }
        i += 1;
    }
    Ok(values)
}

impl Expression {
    /// Evaluates the expression in `context`.
    ///
    /// A literal is resolved when it is evaluated. A call of a function of
    /// the table runs the body of the function in a scope of its own and
    /// takes one step from the budget of `run`; where the budget is used up
    /// the evaluation fails with `MaxIterationsExceeded`. An `end`
    /// statement in such a body marks `run` as ended. The table itself is
    /// not changed.
    pub fn evaluate<U: Arithmetic>(&self, context: &SymbolTable, run: &mut RunState, unit: &U) -> (out:
        Result<Number, ExecutionError>)
        requires
            context.wf(),
        ensures
            final(run).steps <= old(run).steps,
            evaluates(self@, context@, *unit, *old(run), valued(out), *final(run)),
        decreases old(run).steps, 0nat, self, 1nat,
    {
        match self {
            Expression::Literal(text) => match resolve_literal(text, context, unit) {
                Ok(v) => Ok(v),
                Err(e) => Err(ExecutionError::EvaluationError(e)),
            },
            Expression::Operation(op, operands) => evaluate_operation(
                *op,
                operands,
                context,
                run,
                unit,
            ),
            Expression::FunctionCall(name, args) => evaluate_call(name, args, context, run, unit),
        }
    }
}

/// The value of the operation `op` on `operands`.
fn evaluate_operation<U: Arithmetic>(
    op: char,
    operands: &Vec<Expression>,
    context: &SymbolTable,
    run: &mut RunState,
    unit: &U,
) -> (out: Result<Number, ExecutionError>)
    requires
        context.wf(),
    ensures
        final(run).steps <= old(run).steps,
        evaluates(
            ExpressionModel::Operation(op, expression_models(operands@)),
            context@,
            *unit,
            *old(run),
            valued(out),
            *final(run),
        ),
    decreases old(run).steps, 0nat, operands, 0nat,
{
    proof {
        lemma_expression_models(operands@);
    }
    if op == '=' && operands.len() == 2 {
        match &operands[0] {
            Expression::Literal(name) => {
                if global_constants().contains(name.as_str()) {
                    return Err(symbol_failure(SymbolError::ImmutableConstant(name.clone())));
                }
            },
            _ => {},
        }
    }
    if operands.len() == 0 {
        return Err(math_failure(MathError::UnsupportedOperator(op)));
    }
    let left = operands[0].evaluate(context, run, unit);
    let ghost mid = *run;
    match left {
        Err(e) => {
            proof {
                let right: Valued = Ok(zero());
                assert(chosen((valued(left), mid), right));
            }
            Err(e)
        },
        Ok(l) => {
            if operands.len() > 1 {
                let right = operands[1].evaluate(context, run, unit);
                proof {
                    assert(chosen((valued(left), mid), valued(right)));
                }
                match right {
                    Err(e) => Err(e),
                    Ok(r) => lift(apply_operator(op, operands.len(), l, r, unit)),
                }
            } else {
                proof {
                    let right: Valued = Ok(zero());
                    assert(chosen((valued(left), mid), right));
                }
                lift(apply_operator(op, 1, l, Number::zero_value(), unit))
            }
        },
    }
}

/// The value of the call of `name` with the arguments `args`.
fn evaluate_call<U: Arithmetic>(
    name: &String,
    args: &Vec<Expression>,
    context: &SymbolTable,
    run: &mut RunState,
    unit: &U,
) -> (out: Result<Number, ExecutionError>)
    requires
        context.wf(),
    ensures
        final(run).steps <= old(run).steps,
        evaluates(
            ExpressionModel::FunctionCall(name@, expression_models(args@)),
            context@,
            *unit,
            *old(run),
            valued(out),
            *final(run),
        ),
    decreases old(run).steps, 0nat, args, 1nat,
{
    proof {
        lemma_expression_models(args@);
    }
    if context.has_procedure(name.as_str()) {
        return Err(no_value(name));
    }
    let values = evaluate_all(args, context, run, unit);
    let ghost mid = *run;
    let ghost idle: Flowed = Ok((None, ControlFlow::Normal));
    let values = match values {
        Ok(values) => values,
        Err(e) => {
            proof {
                assert(chosen((numbers_answer(values), mid), (idle, context@)));
            }
            return Err(e);
        },
    };
    let ghost found: Result<Seq<Number>, ExecutionErrorModel> = Ok(values@);
    match call_builtin(name.as_str(), &values, unit) {
        Some(answer) => {
            proof {
                assert(chosen((found, mid), (idle, context@)));
            }
            return lift(answer);
        },
        None => {},
    }
    match context.get_function(name.as_str()) {
        None => {
            proof {
                assert(chosen((found, mid), (idle, context@)));
            }
            Err(not_found(name))
        },
        Some((params, body)) => {
            if run.steps == 0 {
                proof {
                    assert(chosen((found, mid), (idle, context@)));
                }
                return Err(ExecutionError::MaxIterationsExceeded);
            }
            if values.len() != params.len() {
                proof {
                    assert(chosen((found, mid), (idle, context@)));
                }
                return Err(wrong_count(name, params.len(), values.len()));
            }
            let mut scope = context.new_call_scope();
            match bind_values(&mut scope, &params, &values) {
                Ok(()) => {},
                Err(e) => {
                    proof {
                        assert(chosen((found, mid), (idle, context@)));
                    }
                    return Err(ExecutionError::EvaluationError(e));
                },
            }
            let ghost inner = scope@;
            run.steps = run.steps - 1;
            let result = body.evaluate(&mut scope, run, unit);
            proof {
                assert(chosen((found, mid), (flowed(result), scope@)));
            }
            match result {
                Err(e) => Err(e),
                Ok((Some(v), _)) => Ok(v),
                Ok((None, _)) => Ok(Number::zero_value()),
            }
        },
    }
}

/// Name and new value of `e` where it is an assignment.
fn assignment_target(e: &Expression) -> (out: Option<(&String, &Expression)>)
    ensures
        match out {
            Some((name, rhs)) => e@.assignment() == Some((name@, rhs@)),
            None => e@.assignment() is None,
        },
{
    match e {
        Expression::Operation(op, operands) => {
            proof {
                lemma_expression_models(operands@);
            }
            if *op == '=' && operands.len() == 2 {
                match &operands[0] {
                    Expression::Literal(name) => Some((name, &operands[1])),
                    _ => None,
                }
            } else {
                None
            }
        },
        _ => None,
    }
}

/// The value of the optional expression `e`: none where there is no
/// expression.
fn evaluate_optional<U: Arithmetic>(
    e: &Option<Expression>,
    context: &SymbolTable,
    run: &mut RunState,
    unit: &U,
) -> (out: Result<Option<Number>, ExecutionError>)
    requires
        context.wf(),
    ensures
        final(run).steps <= old(run).steps,
        evaluates_optional(
            crate::ast_statement::optional_model(*e),
            context@,
            *unit,
            *old(run),
            optional_answer(out),
            *final(run),
        ),
    decreases old(run).steps, 0nat, e, 2nat,
{
    match e {
        None => Ok(None),
        Some(inner) => match inner.evaluate(context, run, unit) {
            Ok(v) => Ok(Some(v)),
            Err(x) => Err(x),
        },
    }
}

/// Stores `value` under `name` in `context`, as a variable or, with
/// `fixed`, as a new constant, and answers with the value.
fn store(
    context: &mut SymbolTable,
    name: &String,
    value: Result<Number, ExecutionError>,
    fixed: bool,
) -> (out: Result<(Option<Number>, ControlFlow), ExecutionError>)
    requires
        old(context).wf(),
    ensures
        final(context).wf(),
        crate::semantics::stores(
            old(context)@,
            name@,
            valued(value),
            fixed,
            flowed(out),
            final(context)@,
        ),
{
    match value {
        Err(x) => Err(x),
        Ok(v) => {
            let stored = if fixed {
                context.declare_constant(name.clone(), v)
            } else {
                context.set_variable(name.clone(), v)
            };
            match stored {
                Ok(()) => Ok((Some(v), ControlFlow::Normal)),
                Err(e) => Err(ExecutionError::EvaluationError(e)),
            }
        },
    }
}

fn declare(stored: Result<(), EvalError>) -> (out: Result<
    (Option<Number>, ControlFlow),
    ExecutionError,
>)
    ensures
        match stored {
            Ok(()) => flowed(out) == Ok::<(Option<Number>, ControlFlow), ExecutionErrorModel>(
                (None, ControlFlow::Normal),
            ),
            Err(e) => flowed(out) == Err::<(Option<Number>, ControlFlow), ExecutionErrorModel>(
                ExecutionErrorModel::EvaluationError(e@),
            ),
        },
{
    match stored {
        Ok(()) => Ok((None, ControlFlow::Normal)),
        Err(e) => Err(ExecutionError::EvaluationError(e)),
    }
}

/// Runs the statements `items` in order in `scope`, up to the first that
/// does not end normally.
#[verifier::loop_isolation(false)]
fn run_items<U: Arithmetic>(
    items: &Vec<Statement>,
    scope: &mut SymbolTable,
    run: &mut RunState,
    unit: &U,
) -> (out: Result<(Option<Number>, ControlFlow), ExecutionError>)
    requires
        old(scope).wf(),
    ensures
        final(scope).wf(),
        final(run).steps <= old(run).steps,
        runs(
            statement_models(items@),
            items.len() as nat,
            old(scope)@,
            *unit,
            *old(run),
            flowed(out),
            final(scope)@,
            *final(run),
        ),
    decreases old(run).steps, 1nat, items, 0nat,
{
    let ghost first = scope@;
    let ghost start = *run;
    let ghost models = statement_models(items@);
    proof {
        lemma_statement_models(items@);
    }
    let mut last: Option<Number> = None;
    let mut i: usize = 0;
    while i < items.len()
        invariant
            i <= items.len(),
            scope.wf(),
            run.steps <= start.steps,
            runs(
                models,
                i as nat,
                first,
                *unit,
                start,
                Ok::<(Option<Number>, ControlFlow), ExecutionErrorModel>(
                    (last, ControlFlow::Normal),
                ),
                scope@,
                *run,
            ),
        decreases items.len() - i,
    {
        let ghost between = scope@;
        let ghost mid = *run;
        let ghost earlier: Flowed = Ok((last, ControlFlow::Normal));
        let result = items[i].evaluate(scope, run, unit);
        proof {
            assert(chosen((earlier, between), (mid, flowed(result))));
        }
        match result {
            Err(e) => {
                proof {
                    let out: Flowed = Err(e@);
                    assert(runs(models, (i + 1) as nat, first, *unit, start, out, scope@, *run));
                    lemma_runs_stops(
                        models,
                        (i + 1) as nat,
                        items.len() as nat,
                        first,
                        *unit,
                        start,
                        out,
                        scope@,
                        *run,
                    );
                }
                return Err(e);
            },
            Ok((value, flow)) => {
                if value.is_some() {
                    last = value;
                }
                proof {
                    let out: Flowed = Ok((last, flow));
                    assert(runs(models, (i + 1) as nat, first, *unit, start, out, scope@, *run));
                }
                if flow != ControlFlow::Normal {
                    proof {
                        let out: Flowed = Ok((last, flow));
                        lemma_runs_stops(
                            models,
                            (i + 1) as nat,
                            items.len() as nat,
                            first,
                            *unit,
                            start,
                            out,
                            scope@,
                            *run,
                        );
                    }
                    return Ok((last, flow));
                }
            },
        }
        i += 1;
    }
    Ok((last, ControlFlow::Normal))
}

/// Runs the branch or loop body `body` in a scope of its own and takes
/// back into `context` what the scope changed of outer variables.
fn run_branch<U: Arithmetic>(
    body: &Statement,
    context: &mut SymbolTable,
    run: &mut RunState,
    unit: &U,
) -> (out: Result<(Option<Number>, ControlFlow), ExecutionError>)
    requires
        old(context).wf(),
    ensures
        final(context).wf(),
        final(run).steps <= old(run).steps,
        branches(
            body@,
            old(context)@,
            *unit,
            *old(run),
            flowed(out),
            final(context)@,
            *final(run),
        ),
    decreases old(run).steps, 1nat, body, 3nat,
{
    let mut scope = context.new_scope();
    let result = body.evaluate(&mut scope, run, unit);
    proof {
        assert(chosen(flowed(result), scope@));
    }
    match result {
        Err(e) => Err(e),
        Ok(r) => {
            let mut shadow: Vec<String> = Vec::new();
            assert(texts(shadow@).to_set() =~= Set::empty());
            collect_declared_vars(body, &mut shadow);
            assert(texts(shadow@).to_set() =~= body@.declared());
            context.merge_except(&scope, &shadow);
            Ok(r)
        },
    }
}

/// Runs the loop with the condition `condition` and the body `body`.
#[verifier::loop_isolation(false)]
fn run_loop<U: Arithmetic>(
    condition: &Expression,
    body: &Statement,
    context: &mut SymbolTable,
    run: &mut RunState,
    unit: &U,
) -> (out: Result<(Option<Number>, ControlFlow), ExecutionError>)
    requires
        old(context).wf(),
    ensures
        final(context).wf(),
        final(run).steps <= old(run).steps,
        loops(
            StatementModel::While { condition: condition@, body: Box::new(body@) },
            old(context)@,
            *unit,
            *old(run),
            flowed(out),
            final(context)@,
            *final(run),
        ),
    decreases old(run).steps, 1nat, body, 4nat,
{
    let ghost first = context@;
    let ghost begun = *run;
    let ghost idle: Flowed = Ok((None, ControlFlow::Normal));
    let ghost mut n: nat = 0;
    let mut last: Option<Number> = None;
    loop
        invariant
            context.wf(),
            run.steps <= begun.steps,
            rounds(condition@, body@, n, first, *unit, begun, last, context@, *run),
        decreases run.steps,
    {
        let ghost between = context@;
        let ghost start = *run;
        let test = condition.evaluate(context, run, unit);
        let ghost mid = *run;
        let c = match test {
            Ok(c) => c,
            Err(e) => {
                proof {
                    assert(chosen((n, last, between, start), (valued(test), mid, idle)));
                }
                return Err(e);
            },
        };
        if !c.is_truthy() {
            proof {
                assert(chosen((n, last, between, start), (valued(test), mid, idle)));
            }
            return Ok((last, ControlFlow::Normal));
        }
        if run.steps == 0 {
            proof {
                assert(chosen((n, last, between, start), (valued(test), mid, idle)));
            }
            return Err(ExecutionError::MaxIterationsExceeded);
        }
        run.steps = run.steps - 1;
        let result = run_branch(body, context, run, unit);
        proof {
            assert(chosen((n, last, between, start), (valued(test), mid, flowed(result))));
        }
        match result {
            Err(e) => {
                return Err(e);
            },
            Ok((value, flow)) => {
                let newest = if value.is_some() {
                    value
                } else {
                    last
                };
                if flow == ControlFlow::Break {
                    return Ok((newest, ControlFlow::Normal));
                }
                if flow == ControlFlow::Return {
                    return Ok((newest, ControlFlow::Return));
                }
                proof {
                    assert(chosen((last, between, start), (c, mid, value, flow)));
                    n = n + 1;
                }
                last = newest;
            },
        }
    }
}

/// Runs the call statement of `name`, which has the parameters `params`
/// and the body `body` and is, with `procedure`, a procedure.
#[verifier::loop_isolation(false)]
fn invoke<U: Arithmetic>(
    name: &String,
    params: Vec<String>,
    body: Statement,
    procedure: bool,
    args: &Vec<Expression>,
    context: &SymbolTable,
    run: &mut RunState,
    unit: &U,
) -> (out: Result<(Option<Number>, ControlFlow), ExecutionError>)
    requires
        context.wf(),
    ensures
        final(run).steps <= old(run).steps,
        invokes(
            name@,
            crate::symbol_manager::CallableModel { params: texts(params@), body: body@ },
            procedure,
            expression_models(args@),
            context@,
            *unit,
            *old(run),
            flowed(out),
            *final(run),
        ),
    decreases old(run).steps, 0nat, args, 2nat,
{
    proof {
        lemma_expression_models(args@);
    }
    if run.steps == 0 {
        return Err(ExecutionError::MaxIterationsExceeded);
    }
    if args.len() != params.len() {
        return Err(wrong_count(name, params.len(), args.len()));
    }
    let ghost models = expression_models(args@);
    let ghost names = texts(params@);
    let ghost idle: Flowed = Ok((None, ControlFlow::Normal));
    run.steps = run.steps - 1;
    let ghost begun = *run;
    let mut scope = context.new_call_scope();
    let ghost first = scope@;
    let mut i: usize = 0;
    while i < args.len()
        invariant
            i <= args.len(),
            args.len() == params.len(),
            scope.wf(),
            run.steps <= begun.steps,
            binds(
                models,
                names,
                i as nat,
                context@,
                first,
                *unit,
                begun,
                Ok::<TableModel, ExecutionErrorModel>(scope@),
                *run,
            ),
        decreases args.len() - i,
    {
        let ghost mid = *run;
        let ghost earlier: Result<TableModel, ExecutionErrorModel> = Ok(scope@);
        let value = args[i].evaluate(context, run, unit);
        proof {
            assert(chosen((earlier, mid), valued(value)));
            assert(names[i as int] == params@[i as int]@);
        }
        let stored = match value {
            Ok(v) => match scope.set_variable(params[i].clone(), v) {
                Ok(()) => Ok(()),
                Err(e) => Err(ExecutionError::EvaluationError(e)),
            },
            Err(e) => Err(e),
        };
        match stored {
            Ok(()) => {},
            Err(e) => {
                proof {
                    let failed: Result<TableModel, ExecutionErrorModel> = Err(e@);
                    assert(binds(
                        models,
                        names,
                        (i + 1) as nat,
                        context@,
                        first,
                        *unit,
                        begun,
                        failed,
                        *run,
                    ));
                    lemma_binds_stops(
                        models,
                        names,
                        (i + 1) as nat,
                        args.len() as nat,
                        context@,
                        first,
                        *unit,
                        begun,
                        e@,
                        *run,
                    );
                    assert(chosen((failed, *run), (idle, first)));
                }
                return Err(e);
            },
        }
        i += 1;
    }
    let ghost mid = *run;
    let ghost inner: Result<TableModel, ExecutionErrorModel> = Ok(scope@);
    let result = body.evaluate(&mut scope, run, unit);
    proof {
        assert(chosen((inner, mid), (flowed(result), scope@)));
    }
    match result {
        Err(e) => Err(e),
        Ok((value, flow)) => {
            if procedure {
                if flow == ControlFlow::Break || flow == ControlFlow::Continue {
                    Ok((None, flow))
                } else {
                    Ok((None, ControlFlow::Normal))
                }
            } else {
                Ok(
                    (
                        Some(
                            match value {
                                Some(v) => v,
                                None => Number::zero_value(),
                            },
                        ),
                        ControlFlow::Normal,
                    ),
                )
            }
        },
    }
}

fn stray_return() -> (out: ExecutionError)
    ensures
        out@ == crate::semantics::stray_return(),
{
    control_failure(
        ControlFlowError::InvalidReturnStatement(
            "Use 'end' instead of 'return' outside of functions/procedures".to_owned(),
        ),
    )
}

impl Statement {
    /// Executes the statement in `context`.
    ///
    /// Blocks, branches and loop bodies run in a scope of their own that
    /// starts as a copy of `context`; when the scope ends, `context` takes
    /// back the new values of its own variables, but not of names that the
    /// scope declared itself. Each round of a loop and each call takes one
    /// step from the budget of `run`; where the budget is used up the
    /// execution fails with `MaxIterationsExceeded`. A `return` is accepted
    /// within functions and procedures only; an `end` marks `run` as ended
    /// and unwinds like a return.
    pub fn evaluate<U: Arithmetic>(
        &self,
        context: &mut SymbolTable,
        run: &mut RunState,
        unit: &U,
    ) -> (out: Result<(Option<Number>, ControlFlow), ExecutionError>)
        requires
            old(context).wf(),
        ensures
            final(context).wf(),
            final(run).steps <= old(run).steps,
            executes(
                self@,
                old(context)@,
                *unit,
                *old(run),
                flowed(out),
                final(context)@,
                *final(run),
            ),
        decreases old(run).steps, 1nat, self, 2nat,
    {
        match self {
            Statement::Expression(e) => {
                match assignment_target(e) {
                    Some((name, rhs)) => {
                        if !context.contains(name.as_str()) {
                            return Err(
                                symbol_failure(SymbolError::UndeclaredVariable(name.clone())),
                            );
                        }
                        let value = rhs.evaluate(context, run, unit);
                        proof {
                            assert(chosen(valued(value), 0int));
                        }
                        store(context, name, value, false)
                    },
                    None => match e.evaluate(context, run, unit) {
                        Ok(v) => Ok((Some(v), ControlFlow::Normal)),
                        Err(x) => Err(x),
                    },
                }
            },
            Statement::Block(items) => {
                proof {
                    lemma_statement_models(items@);
                }
                let mut scope = context.new_scope();
                let result = run_items(items, &mut scope, run, unit);
                proof {
                    assert(chosen(flowed(result), scope@));
                }
                match result {
                    Err(e) => Err(e),
                    Ok(r) => {
                        let mut shadow: Vec<String> = Vec::new();
                        assert(texts(shadow@).to_set() =~= Set::empty());
                        collect_declared_vars(self, &mut shadow);
                        assert(texts(shadow@).to_set() =~= self@.declared());
                        context.merge_except(&scope, &shadow);
                        Ok(r)
                    },
                }
            },
            Statement::If { condition, then_branch, else_branch } => {
                let test = condition.evaluate(context, run, unit);
                proof {
                    assert(chosen(valued(test), *run));
                }
                match test {
                    Err(e) => Err(e),
                    Ok(c) => {
                        if c.is_truthy() {
                            run_branch(then_branch, context, run, unit)
                        } else {
                            match else_branch {
                                Some(other) => run_branch(other, context, run, unit),
                                None => Ok((Some(Number::zero_value()), ControlFlow::Normal)),
                            }
                        }
                    },
                }
            },
            Statement::While { condition, body } => run_loop(condition, body, context, run, unit),
            Statement::Break => Ok((None, ControlFlow::Break)),
            Statement::Continue => Ok((None, ControlFlow::Continue)),
            Statement::Return(e) => {
                let value = evaluate_optional(e, context, run, unit);
                proof {
                    assert(chosen(optional_answer(value), 1int));
                }
                match value {
                    Err(x) => Err(x),
                    Ok(v) => {
                        if context.is_in_callable() {
                            Ok((v, ControlFlow::Return))
                        } else {
                            Err(stray_return())
                        }
                    },
                }
            },
            Statement::End(e) => {
                let value = evaluate_optional(e, context, run, unit);
                proof {
                    assert(chosen(optional_answer(value), *run));
                }
                match value {
                    Err(x) => Err(x),
                    Ok(v) => {
                        run.exit = ExitState::with_value(v);
                        Ok((v, ControlFlow::Return))
                    },
                }
            },
            Statement::Let { name, initializer } => {
                let value = evaluate_optional(initializer, context, run, unit);
                proof {
                    assert(chosen(optional_answer(value), 2int));
                }
                let value = match value {
                    Ok(Some(v)) => Ok(v),
                    Ok(None) => Ok(Number::zero_value()),
                    Err(x) => Err(x),
                };
                store(context, name, value, false)
            },
            Statement::Const { name, initializer } => {
                let value = initializer.evaluate(context, run, unit);
                proof {
                    assert(chosen(valued(value), 3int));
                }
                store(context, name, value, true)
            },
            Statement::Function { name, params, body } => {
                let stored = context.declare_function(
                    name.clone(),
                    crate::ast_statement::clone_texts(params),
                    (**body).clone(),
                );
                declare(stored)
            },
            Statement::Procedure { name, params, body } => {
                let stored = context.declare_procedure(
                    name.clone(),
                    crate::ast_statement::clone_texts(params),
                    (**body).clone(),
                );
                declare(stored)
            },
            Statement::ProcedureCall { name, args } => {
                match context.get_procedure(name.as_str()) {
                    Some((params, body)) => invoke(
                        name,
                        params,
                        body,
                        true,
                        args,
                        context,
                        run,
                        unit,
                    ),
                    None => match context.get_function(name.as_str()) {
                        Some((params, body)) => invoke(
                            name,
                            params,
                            body,
                            false,
                            args,
                            context,
                            run,
                            unit,
                        ),
                        None => Err(not_found(name)),
                    },
                }
            },
        }
    }
}

} // verus!
