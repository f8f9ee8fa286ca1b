//! The two entry points: [`evaluate`] for a single expression, [`execute`]
//! for a program.

use vstd::prelude::*;
use crate::arithmetic::Arithmetic;
use crate::ast_statement::{lemma_statement_models, statement_models, ControlFlow, Statement, StatementModel};
use crate::error_types::{
    ControlFlowError, ControlFlowErrorModel, EvalError, ExecutionError, ExecutionErrorModel,
    InterpreterError, InterpreterErrorModel,
};
use crate::execution_state::{ExitState, RunState};
use crate::grammar::{program, whole_expression, ProgramModel};
use crate::lexical_analyzer::lex;
use crate::number::Number;
use crate::ast_expression::{expression_models, lemma_expression_models, Expression, ExpressionModel};
use crate::parser::{parse_expression, parse_program, sequence_from, ParsedProgram};
use crate::semantics::{chosen, control, evaluates, executes, flowed, valued, Flowed, Valued};
use crate::symbol_manager::{SymbolTable, TableModel};

verus! {

/// The number of steps that a run may take where no other number is given.
pub const STEP_LIMIT: u64 = 0xffff_ffff_ffff_ffff;

/// The state of a run that is about to begin and may take `steps` steps.
pub open spec fn fresh(steps: u64) -> RunState {
    RunState { exit: ExitState { occurred: false, value: None }, steps }
}

/// An error of a run, as the interpreter reports it: errors of evaluation
/// as such, the others as errors of execution.
pub open spec fn reported(e: ExecutionErrorModel) -> InterpreterErrorModel {
    match e {
        ExecutionErrorModel::EvaluationError(x) => InterpreterErrorModel::Eval(x),
        other => InterpreterErrorModel::Exec(other),
    }
}

/// What a program answers whose statements answered `done` and left the
/// run in the state `after`: the value of the `end` statement that fired,
/// else the value of the last statement.
pub open spec fn concluded(done: Result<Option<Number>, ExecutionErrorModel>, after: RunState) -> Result<
    Option<Number>,
    InterpreterErrorModel,
> {
    match done {
        Err(x) => Err(reported(x)),
        Ok(last) => if after.exit.occurred {
            Ok(after.exit.value)
        } else {
            Ok(last)
        },
    }
}

/// Whether the first `count` of the statements `items` of a program, run
/// in order in `table`, may answer `out`: the value of the last statement
/// that ran. The statements behind an `end` that fired do not run; a
/// `break` or `continue` that reaches the program is an error.
pub open spec fn proceeds<U: Arithmetic>(
    items: Seq<StatementModel>,
    count: nat,
    table: TableModel,
    unit: U,
    before: RunState,
    out: Result<Option<Number>, ExecutionErrorModel>,
    table_after: TableModel,
    after: RunState,
) -> bool
    decreases count,
{
    if count == 0 || count > items.len() {
        &&& after == before
        &&& table_after == table
        &&& out == Ok::<Option<Number>, ExecutionErrorModel>(None)
    } else {
        exists|
            earlier: Result<Option<Number>, ExecutionErrorModel>,
            between: TableModel,
            mid: RunState,
            result: Flowed,
        | #[trigger]
            chosen((earlier, between), (mid, result)) && proceeds(
                items,
                (count - 1) as nat,
                table,
                unit,
                before,
                earlier,
                between,
                mid,
            ) && (if earlier is Err || mid.exit.occurred {
                &&& after == mid
                &&& table_after == between
                &&& out == earlier
            } else {
                &&& executes(items[count - 1], between, unit, mid, result, table_after, after)
                &&& out == passed(result)
            })
    }
}

/// What a statement of a program passes on that answered `result`.
pub open spec fn passed(result: Flowed) -> Result<Option<Number>, ExecutionErrorModel> {
    match result {
        Err(x) => Err(x),
        Ok((value, flow)) => if flow == ControlFlow::Break {
            Err(control(ControlFlowErrorModel::BreakOutsideLoop))
        } else if flow == ControlFlow::Continue {
            Err(control(ControlFlowErrorModel::ContinueOutsideLoop))
        } else {
            Ok(value)
        },
    }
}

/// Once a program has stopped, with an error or with an `end` statement,
/// it has stopped for every longer part of its statements.
pub proof fn lemma_proceeds_stops<U: Arithmetic>(
    items: Seq<StatementModel>,
    k: nat,
    n: nat,
    table: TableModel,
    unit: U,
    before: RunState,
    out: Result<Option<Number>, ExecutionErrorModel>,
    table_after: TableModel,
    after: RunState,
)
    requires
        k <= n <= items.len(),
        proceeds(items, k, table, unit, before, out, table_after, after),
        out is Err || after.exit.occurred,
    ensures
        proceeds(items, n, table, unit, before, out, table_after, after),
    decreases n - k,
{
    if k < n {
        lemma_proceeds_stops(items, k, (n - 1) as nat, table, unit, before, out, table_after, after);
        let result: Flowed = Ok((None, ControlFlow::Normal));
        assert(chosen((out, table_after), (after, result)));
    }
}

/// Whether the program `input`, run in `table` with a budget of `steps`
/// steps, may answer `out` and leave the table as `table_after`. An input
/// that does not parse leaves the table as it was.
pub open spec fn executed<U: Arithmetic>(
    input: Seq<char>,
    table: TableModel,
    unit: U,
    steps: u64,
    out: Result<Option<Number>, InterpreterErrorModel>,
    table_after: TableModel,
) -> bool {
    match program(lex(input), 0) {
        Err(e) => {
            &&& table_after == table
            &&& out == Err::<Option<Number>, InterpreterErrorModel>(
                InterpreterErrorModel::Parse(e),
            )
        },
        Ok(ProgramModel::Statements(items)) => exists|
            done: Result<Option<Number>, ExecutionErrorModel>,
            after: RunState,
        | #[trigger]
            chosen(done, after) && proceeds(
                items,
                items.len(),
                table,
                unit,
                fresh(steps),
                done,
                table_after,
                after,
            ) && out == concluded(done, after),
        Ok(ProgramModel::Expression(e)) => {
            &&& table_after == table
            &&& exists|value: Valued, after: RunState| #[trigger]
                chosen(value, after) && evaluates(e, table, unit, fresh(steps), value, after)
                    && out == (match value {
                    Ok(v) => Ok(Some(v)),
                    Err(x) => Err(reported(x)),
                })
        },
    }
}

/// Whether the expression `input`, evaluated in `table` with a budget of
/// `steps` steps, may have the value `out`.
pub open spec fn evaluated<U: Arithmetic>(
    input: Seq<char>,
    table: TableModel,
    unit: U,
    steps: u64,
    out: Result<Number, InterpreterErrorModel>,
) -> bool {
    match whole_expression(lex(input), 0) {
        Err(e) => out == Err::<Number, InterpreterErrorModel>(InterpreterErrorModel::Parse(e)),
        Ok(e) => exists|value: Valued, after: RunState| #[trigger]
            chosen(value, after) && evaluates(e, table, unit, fresh(steps), value, after) && out
                == (match value {
                Ok(v) => Ok(v),
                Err(x) => Err(reported(x)),
            }),
    }
}

/// The model of the answer of [`execute`].
pub open spec fn execution_answer(out: Result<Option<Number>, InterpreterError>) -> Result<
    Option<Number>,
    InterpreterErrorModel,
> {
    match out {
        Ok(v) => Ok(v),
        Err(e) => Err(e@),
    }
}

/// The model of the answer of [`evaluate`].
pub open spec fn evaluation_answer(out: Result<Number, InterpreterError>) -> Result<
    Number,
    InterpreterErrorModel,
> {
    match out {
        Ok(v) => Ok(v),
        Err(e) => Err(e@),
    }
}

/// The model of the answer of a run of statements.
pub open spec fn progress_answer(out: Result<Option<Number>, ExecutionError>) -> Result<
    Option<Number>,
    ExecutionErrorModel,
> {
    match out {
        Ok(v) => Ok(v),
        Err(e) => Err(e@),
    }
}

fn report(e: ExecutionError) -> (out: InterpreterError)
    ensures
        out@ == reported(e@),
{
    match e {
        ExecutionError::EvaluationError(x) => InterpreterError::Eval(x),
        other => InterpreterError::Exec(other),
    }
}

fn pass(result: Result<(Option<Number>, ControlFlow), ExecutionError>) -> (out: Result<
    Option<Number>,
    ExecutionError,
>)
    ensures
        progress_answer(out) == passed(flowed(result)),
{
    match result {
        Err(x) => Err(x),
        Ok((value, flow)) => {
            if flow == ControlFlow::Break {
                Err(
                    ExecutionError::EvaluationError(
                        EvalError::ControlFlowError(ControlFlowError::BreakOutsideLoop),
                    ),
                )
            } else if flow == ControlFlow::Continue {
                Err(
                    ExecutionError::EvaluationError(
                        EvalError::ControlFlowError(ControlFlowError::ContinueOutsideLoop),
                    ),
                )
            } else {
                Ok(value)
            }
        },
    }
}

/// Runs the statements of a program in order, up to the first error or
/// the first `end` statement that fires.
#[verifier::loop_isolation(false)]
fn run_program<U: Arithmetic>(
    items: &Vec<Statement>,
    context: &mut SymbolTable,
    run: &mut RunState,
    unit: &U,
) -> (out: Result<Option<Number>, ExecutionError>)
    requires
        old(context).wf(),
    ensures
        final(context).wf(),
        proceeds(
            statement_models(items@),
            items.len() as nat,
            old(context)@,
            *unit,
            *old(run),
            progress_answer(out),
            final(context)@,
            *final(run),
        ),
{
    let ghost first = context@;
    let ghost start = *run;
    let ghost models = statement_models(items@);
    proof {
        lemma_statement_models(items@);
    }
    let mut last: Option<Number> = None;
    let mut i: usize = 0;
    while i < items.len()
        invariant
            i <= items.len(),
            context.wf(),
            proceeds(
                models,
                i as nat,
                first,
                *unit,
                start,
                Ok::<Option<Number>, ExecutionErrorModel>(last),
                context@,
                *run,
            ),
        decreases items.len() - i,
    {
        let ghost earlier: Result<Option<Number>, ExecutionErrorModel> = Ok(last);
        if run.exit.occurred {
            proof {
                lemma_proceeds_stops(
                    models,
                    i as nat,
                    items.len() as nat,
                    first,
                    *unit,
                    start,
                    earlier,
                    context@,
                    *run,
                );
            }
            return Ok(last);
        }
        let ghost between = context@;
        let ghost mid = *run;
        let result = items[i].evaluate(context, run, unit);
        proof {
            assert(chosen((earlier, between), (mid, flowed(result))));
        }
        match pass(result) {
            Ok(value) => {
                last = value;
            },
            Err(e) => {
                proof {
                    let out: Result<Option<Number>, ExecutionErrorModel> = Err(e@);
                    assert(proceeds(
                        models,
                        (i + 1) as nat,
                        first,
                        *unit,
                        start,
                        out,
                        context@,
                        *run,
                    ));
                    lemma_proceeds_stops(
                        models,
                        (i + 1) as nat,
                        items.len() as nat,
                        first,
                        *unit,
                        start,
                        out,
                        context@,
                        *run,
                    );
                }
                return Err(e);
            },
        }
        i += 1;
    }
    Ok(last)
}

/// Evaluates the single expression `input` in `context`, with a budget of
/// `steps` loop rounds and calls.
pub fn evaluate_within<U: Arithmetic>(input: &str, context: &SymbolTable, unit: &U, steps: u64) -> (out:
    Result<Number, InterpreterError>)
    requires
        context.wf(),
    ensures
        evaluated(input@, context@, *unit, steps, evaluation_answer(out)),
{
    let expression = match parse_expression(input) {
        Ok(e) => e,
        Err(e) => {
            return Err(InterpreterError::Parse(e));
        },
    };
    let mut run = RunState::new(steps);
    assert(run == fresh(steps));
    let value = expression.evaluate(context, &mut run, unit);
    proof {
        assert(chosen(valued(value), run));
    }
    match value {
        Ok(v) => Ok(v),
        Err(e) => Err(report(e)),
    }
}

/// Evaluates the single expression `input` in `context`.
pub fn evaluate<U: Arithmetic>(input: &str, context: &SymbolTable, unit: &U) -> (out: Result<
    Number,
    InterpreterError,
>)
    requires
        context.wf(),
    ensures
        evaluated(input@, context@, *unit, STEP_LIMIT, evaluation_answer(out)),
{
    evaluate_within(input, context, unit, STEP_LIMIT)
}

/// Runs the program `input` in `context`, with a budget of `steps` loop
/// rounds and calls.
pub fn execute_within<U: Arithmetic>(
    input: &str,
    context: &mut SymbolTable,
    unit: &U,
    steps: u64,
) -> (out: Result<Option<Number>, InterpreterError>)
    requires
        old(context).wf(),
    ensures
        final(context).wf(),
        executed(input@, old(context)@, *unit, steps, execution_answer(out), final(context)@),
{
    let parsed = match parse_program(input) {
        Ok(p) => p,
        Err(e) => {
            return Err(InterpreterError::Parse(e));
        },
    };
    let mut run = RunState::new(steps);
    assert(run == fresh(steps));
    match parsed {
        ParsedProgram::Statements(items) => {
            proof {
                lemma_statement_models(items@);
            }
            let done = run_program(&items, context, &mut run, unit);
            proof {
                assert(chosen(progress_answer(done), run));
            }
            match done {
                Err(e) => Err(report(e)),
                Ok(last) => {
                    if run.exit.occurred {
                        Ok(run.exit.value)
                    } else {
                        Ok(last)
                    }
                },
            }
        },
        ParsedProgram::Expression(e) => {
            let value = e.evaluate(context, &mut run, unit);
            proof {
                assert(chosen(valued(value), run));
            }
            match value {
                Ok(v) => Ok(Some(v)),
                Err(x) => Err(report(x)),
            }
        },
    }
}

/// Runs the program `input` in `context`.
pub fn execute<U: Arithmetic>(input: &str, context: &mut SymbolTable, unit: &U) -> (out: Result<
    Option<Number>,
    InterpreterError,
>)
    requires
        old(context).wf(),
    ensures
        final(context).wf(),
        executed(
            input@,
            old(context)@,
            *unit,
            STEP_LIMIT,
            execution_answer(out),
            final(context)@,
        ),
{
    execute_within(input, context, unit, STEP_LIMIT)
}

/// Whether the first `count` of the expressions `list`, evaluated in order
/// in `table`, may have `out` as the value of the last one, zero for none.
/// An assignment stores its value under its name, which it declares where
/// the name is new.
pub open spec fn follows<U: Arithmetic>(
    list: Seq<ExpressionModel>,
    count: nat,
    table: TableModel,
    unit: U,
    before: RunState,
    out: Valued,
    table_after: TableModel,
    after: RunState,
) -> bool
    decreases count,
{
    if count == 0 || count > list.len() {
        &&& after == before
        &&& table_after == table
        &&& out == Ok::<Number, ExecutionErrorModel>(crate::semantics::zero())
    } else {
        exists|earlier: Valued, between: TableModel, mid: RunState, value: Valued| #[trigger]
            chosen((earlier, between), (mid, value)) && follows(
                list,
                (count - 1) as nat,
                table,
                unit,
                before,
                earlier,
                between,
                mid,
            ) && match earlier {
                Err(x) => {
                    &&& after == mid
                    &&& table_after == between
                    &&& out == Err::<Number, ExecutionErrorModel>(x)
                },
                Ok(_) => match list[count - 1].assignment() {
                    Some((name, rhs)) => {
                        &&& evaluates(rhs, between, unit, mid, value, after)
                        &&& match value {
                            Err(x) => table_after == between && out == Err::<
                                Number,
                                ExecutionErrorModel,
                            >(x),
                            Ok(v) => match between.assignment(name, v) {
                                Ok(t) => table_after == t && out == Ok::<
                                    Number,
                                    ExecutionErrorModel,
                                >(v),
                                Err(x) => table_after == between && out == Err::<
                                    Number,
                                    ExecutionErrorModel,
                                >(ExecutionErrorModel::EvaluationError(x)),
                            },
                        }
                    },
                    None => {
                        &&& table_after == between
                        &&& evaluates(list[count - 1], between, unit, mid, out, after)
                    },
                },
            }
    }
}

/// Once the evaluation of a sequence has failed, it has failed for every
/// longer part of the sequence.
pub proof fn lemma_follows_stops<U: Arithmetic>(
    list: Seq<ExpressionModel>,
    k: nat,
    n: nat,
    table: TableModel,
    unit: U,
    before: RunState,
    x: ExecutionErrorModel,
    table_after: TableModel,
    after: RunState,
)
    requires
        k <= n <= list.len(),
        follows(list, k, table, unit, before, Err(x), table_after, after),
    ensures
        follows(list, n, table, unit, before, Err(x), table_after, after),
    decreases n - k,
{
    if k < n {
        lemma_follows_stops(list, k, (n - 1) as nat, table, unit, before, x, table_after, after);
        let earlier: Valued = Err(x);
        assert(chosen((earlier, table_after), (after, earlier)));
    }
}

/// Whether the sequence of expressions `input`, evaluated in `table` with
/// a budget of `steps` steps, may have the value `out` and leave the table
/// as `table_after`.
pub open spec fn sequenced<U: Arithmetic>(
    input: Seq<char>,
    table: TableModel,
    unit: U,
    steps: u64,
    out: Result<Number, InterpreterErrorModel>,
    table_after: TableModel,
) -> bool {
    match sequence_from(input, 0, Seq::empty()) {
        Err(e) => {
            &&& table_after == table
            &&& out == Err::<Number, InterpreterErrorModel>(InterpreterErrorModel::Parse(e))
        },
        Ok(list) => exists|value: Valued, after: RunState| #[trigger]
            chosen(value, after) && follows(
                list,
                list.len(),
                table,
                unit,
                fresh(steps),
                value,
                table_after,
                after,
            ) && out == (match value {
                Ok(v) => Ok(v),
                Err(x) => Err(reported(x)),
            }),
    }
}

impl Expression {
    /// Evaluates the expressions of `input`, which semicolons separate,
    /// in order in `context`, and answers with the value of the last one,
    /// or with zero where there is none. An assignment stores its value
    /// under its name, which it declares where the name is new.
    #[verifier::loop_isolation(false)]
    pub fn evaluate_sequence<U: Arithmetic>(input: &str, context: &mut SymbolTable, unit: &U) -> (out:
        Result<Number, InterpreterError>)
        requires
            old(context).wf(),
        ensures
            final(context).wf(),
            sequenced(
                input@,
                old(context)@,
                *unit,
                STEP_LIMIT,
                evaluation_answer(out),
                final(context)@,
            ),
    {
        let list = match Expression::parse_from_str(input) {
            Ok(list) => list,
            Err(e) => {
                return Err(InterpreterError::Parse(e));
            },
        };
        let ghost models = expression_models(list@);
        let ghost first = context@;
        proof {
            lemma_expression_models(list@);
        }
        let mut run = RunState::new(STEP_LIMIT);
        assert(run == fresh(STEP_LIMIT));
        let mut last = Number::zero_value();
        let mut i: usize = 0;
        while i < list.len()
            invariant
                i <= list.len(),
                context.wf(),
                follows(
                    models,
                    i as nat,
                    first,
                    *unit,
                    fresh(STEP_LIMIT),
                    Ok::<Number, ExecutionErrorModel>(last),
                    context@,
                    run,
                ),
            decreases list.len() - i,
        {
            let ghost earlier: Valued = Ok(last);
            let ghost between = context@;
            let ghost mid = run;
            let step = match list[i].is_assignment() {
                Some((name, rhs)) => {
                    let value = rhs.evaluate(context, &mut run, unit);
                    proof {
                        assert(chosen((earlier, between), (mid, valued(value))));
                    }
                    match value {
                        Ok(v) => match context.set_variable(name, v) {
                            Ok(()) => Ok(v),
                            Err(e) => Err(ExecutionError::EvaluationError(e)),
                        },
                        Err(e) => Err(e),
                    }
                },
                None => {
                    let value = list[i].evaluate(context, &mut run, unit);
                    proof {
                        assert(chosen((earlier, between), (mid, valued(value))));
                    }
                    value
                },
            };
            match step {
                Ok(v) => {
                    last = v;
                },
                Err(e) => {
                    proof {
                        assert(follows(
                            models,
                            (i + 1) as nat,
                            first,
                            *unit,
                            fresh(STEP_LIMIT),
                            Err::<Number, ExecutionErrorModel>(e@),
                            context@,
                            run,
                        ));
                        lemma_follows_stops(
                            models,
                            (i + 1) as nat,
                            list.len() as nat,
                            first,
                            *unit,
                            fresh(STEP_LIMIT),
                            e@,
                            context@,
                            run,
                        );
                        let failed: Valued = Err(e@);
                        assert(chosen(failed, run));
                    }
                    return Err(report(e));
                },
            }
            i += 1;
        }
        proof {
            let done: Valued = Ok(last);
            assert(chosen(done, run));
        }
        Ok(last)
    }
}

} // verus!
