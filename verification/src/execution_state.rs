//! The state of one run of a program: whether an `end` statement has
//! fired, and how many steps the run may still take.

use vstd::prelude::*;
use crate::number::Number;

verus! {

/// Whether an `end` statement has fired, and with which value.
#[derive(Clone, Copy, Debug)]
pub struct ExitState {
    /// Whether an `end` statement has fired.
    pub occurred: bool,
    /// The value of the `end` statement, if it had one.
    pub value: Option<Number>,
}

impl ExitState {
    /// The state before any `end` statement.
    pub fn new() -> (out: ExitState)
        ensures
            !out.occurred,
            out.value is None,
    {
        ExitState { occurred: false, value: None }
    }

    /// The state after an `end` statement with the given value.
    pub fn with_value(value: Option<Number>) -> (out: ExitState)
        ensures
            out.occurred,
            out.value == value,
    {
        ExitState { occurred: true, value }
    }

    /// Back to the state before any `end` statement.
    pub fn reset(&mut self)
        ensures
            !final(self).occurred,
            final(self).value is None,
    {
        self.occurred = false;
        self.value = None;
    }
}

/// The state that one run threads through every evaluation.
#[derive(Clone, Copy, Debug)]
pub struct RunState {
    /// The early exit of the run.
    pub exit: ExitState,
    /// How many loop rounds and calls the run may still begin.
    pub steps: u64,
}

impl RunState {
    /// The state at the start of a run that may take `steps` steps.
    pub fn new(steps: u64) -> (out: RunState)
        ensures
            !out.exit.occurred,
            out.exit.value is None,
            out.steps == steps,
    {
        RunState { exit: ExitState::new(), steps }
    }
}

} // verus!
