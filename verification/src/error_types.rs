//! Error types of the interpreter, their mathematical models and their
//! messages.

use vstd::prelude::*;
use crate::text::{decimal, push_decimal, push_text};

verus! {

/// Error while turning text into an abstract syntax tree.
#[derive(Debug)]
pub enum ParseError {
    /// Empty token stream.
    EmptyInput,
    /// Unexpected token encountered.
    UnexpectedToken(String),
    /// Unmatched parenthesis.
    UnmatchedParenthesis,
    /// Invalid statement.
    InvalidStatement,
    /// Expected a literal (number or identifier).
    ExpectedLiteral,
    /// Expected an operator.
    ExpectedOperator(String),
    /// Expected a semicolon.
    ExpectedSemicolon,
    /// Expected an identifier.
    ExpectedIdentifier,
    /// Expected a code block.
    ExpectedBlock,
    /// Empty code block.
    EmptyBlock,
    /// Invalid number format.
    InvalidNumber(String),
    /// Syntax error with message.
    SyntaxError(String),
    /// Expected something but found something else.
    Expected {
        expected: String,
        found: String,
    },
}

/// What a [`ParseError`] says, with texts as character sequences.
pub enum ParseErrorModel {
    EmptyInput,
    UnexpectedToken(Seq<char>),
    UnmatchedParenthesis,
    InvalidStatement,
    ExpectedLiteral,
    ExpectedOperator(Seq<char>),
    ExpectedSemicolon,
    ExpectedIdentifier,
    ExpectedBlock,
    EmptyBlock,
    InvalidNumber(Seq<char>),
    SyntaxError(Seq<char>),
    Expected {
        expected: Seq<char>,
        found: Seq<char>,
    },
}

impl View for ParseError {
    type V = ParseErrorModel;

    open spec fn view(&self) -> ParseErrorModel {
        match self {
            ParseError::EmptyInput => ParseErrorModel::EmptyInput,
            ParseError::UnexpectedToken(a0) => ParseErrorModel::UnexpectedToken(a0@),
            ParseError::UnmatchedParenthesis => ParseErrorModel::UnmatchedParenthesis,
            ParseError::InvalidStatement => ParseErrorModel::InvalidStatement,
            ParseError::ExpectedLiteral => ParseErrorModel::ExpectedLiteral,
            ParseError::ExpectedOperator(a0) => ParseErrorModel::ExpectedOperator(a0@),
            ParseError::ExpectedSemicolon => ParseErrorModel::ExpectedSemicolon,
            ParseError::ExpectedIdentifier => ParseErrorModel::ExpectedIdentifier,
            ParseError::ExpectedBlock => ParseErrorModel::ExpectedBlock,
            ParseError::EmptyBlock => ParseErrorModel::EmptyBlock,
            ParseError::InvalidNumber(a0) => ParseErrorModel::InvalidNumber(a0@),
            ParseError::SyntaxError(a0) => ParseErrorModel::SyntaxError(a0@),
            ParseError::Expected { expected, found } => (ParseErrorModel::Expected {
                expected: expected@,
                found: found@,
            }),
        }
    }
}

impl ParseErrorModel {
    /// The message shown for the error.
    pub open spec fn message(self) -> Seq<char> {
        match self {
            ParseErrorModel::EmptyInput => "Empty input. Please enter an expression."@,
            ParseErrorModel::UnexpectedToken(a0) => "Unexpected token: "@ + a0,
            ParseErrorModel::UnmatchedParenthesis => "Unmatched parenthesis."@,
            ParseErrorModel::InvalidStatement => "Invalid statement syntax."@,
            ParseErrorModel::ExpectedLiteral => "Expected a literal (number or identifier)."@,
            ParseErrorModel::ExpectedOperator(a0) => "Expected an operator: "@ + a0,
            ParseErrorModel::ExpectedSemicolon => "Expected a semicolon."@,
            ParseErrorModel::ExpectedIdentifier => "Expected an identifier."@,
            ParseErrorModel::ExpectedBlock => "Expected a code block enclosed in curly braces {}."@,
            ParseErrorModel::EmptyBlock => "Empty code block. A block should contain at least one statement."@,
            ParseErrorModel::InvalidNumber(a0) => "Invalid number format: "@ + a0,
            ParseErrorModel::SyntaxError(a0) => "Syntax error: "@ + a0,
            ParseErrorModel::Expected { expected, found } => "Expected "@ + expected + ", but found "@ + found + " instead."@,
        }
    }
}

impl ParseError {
    /// The message shown for the error.
    pub fn to_string(&self) -> (out: String)
        ensures
            out@ == self@.message(),
    {
        let mut out = String::new();
        match self {
            ParseError::EmptyInput => {
                push_text(&mut out, "Empty input. Please enter an expression.");
            },
            ParseError::UnexpectedToken(a0) => {
                push_text(&mut out, "Unexpected token: ");
                push_text(&mut out, a0.as_str());
            },
            ParseError::UnmatchedParenthesis => {
                push_text(&mut out, "Unmatched parenthesis.");
            },
            ParseError::InvalidStatement => {
                push_text(&mut out, "Invalid statement syntax.");
            },
            ParseError::ExpectedLiteral => {
                push_text(&mut out, "Expected a literal (number or identifier).");
            },
            ParseError::ExpectedOperator(a0) => {
                push_text(&mut out, "Expected an operator: ");
                push_text(&mut out, a0.as_str());
            },
            ParseError::ExpectedSemicolon => {
                push_text(&mut out, "Expected a semicolon.");
            },
            ParseError::ExpectedIdentifier => {
                push_text(&mut out, "Expected an identifier.");
            },
            ParseError::ExpectedBlock => {
                push_text(&mut out, "Expected a code block enclosed in curly braces {}.");
            },
            ParseError::EmptyBlock => {
                push_text(&mut out, "Empty code block. A block should contain at least one statement.");
            },
            ParseError::InvalidNumber(a0) => {
                push_text(&mut out, "Invalid number format: ");
                push_text(&mut out, a0.as_str());
            },
            ParseError::SyntaxError(a0) => {
                push_text(&mut out, "Syntax error: ");
                push_text(&mut out, a0.as_str());
            },
            ParseError::Expected { expected, found } => {
                push_text(&mut out, "Expected ");
                push_text(&mut out, expected.as_str());
                push_text(&mut out, ", but found ");
                push_text(&mut out, found.as_str());
                push_text(&mut out, " instead.");
            },
        }
        out
    }
}

/// Errors of mathematical operations.
#[derive(Debug)]
pub enum MathError {
    /// Division by zero was attempted.
    DivisionByZero,
    /// Modulo by zero was attempted.
    ModuloByZero,
    /// Exponentiation was performed with invalid operands.
    InvalidExponentiation,
    /// An unsupported operator was encountered.
    UnsupportedOperator(char),
    /// A function call was made to an unsupported function.
    UnsupportedFunction(String),
    /// A root of a negative number with a non-integer degree was attempted.
    NegativeRoot,
    /// A zeroth root was attempted.
    ZerothRoot,
    /// A domain error of a mathematical function.
    DomainError(String),
    /// Numerical overflow or underflow.
    Overflow,
    /// The result is not a number.
    NotANumber,
}

/// What a [`MathError`] says, with texts as character sequences.
pub enum MathErrorModel {
    DivisionByZero,
    ModuloByZero,
    InvalidExponentiation,
    UnsupportedOperator(char),
    UnsupportedFunction(Seq<char>),
    NegativeRoot,
    ZerothRoot,
    DomainError(Seq<char>),
    Overflow,
    NotANumber,
}

impl View for MathError {
    type V = MathErrorModel;

    open spec fn view(&self) -> MathErrorModel {
        match self {
            MathError::DivisionByZero => MathErrorModel::DivisionByZero,
            MathError::ModuloByZero => MathErrorModel::ModuloByZero,
            MathError::InvalidExponentiation => MathErrorModel::InvalidExponentiation,
            MathError::UnsupportedOperator(a0) => MathErrorModel::UnsupportedOperator(*a0),
            MathError::UnsupportedFunction(a0) => MathErrorModel::UnsupportedFunction(a0@),
            MathError::NegativeRoot => MathErrorModel::NegativeRoot,
            MathError::ZerothRoot => MathErrorModel::ZerothRoot,
            MathError::DomainError(a0) => MathErrorModel::DomainError(a0@),
            MathError::Overflow => MathErrorModel::Overflow,
            MathError::NotANumber => MathErrorModel::NotANumber,
        }
    }
}

impl MathErrorModel {
    /// The message shown for the error.
    pub open spec fn message(self) -> Seq<char> {
        match self {
            MathErrorModel::DivisionByZero => "Division by zero error. Cannot divide by zero."@,
            MathErrorModel::ModuloByZero => "Modulo by zero error. Cannot compute modulo with zero divisor."@,
            MathErrorModel::InvalidExponentiation => "Invalid exponentiation. Cannot raise a negative number to a fractional power."@,
            MathErrorModel::UnsupportedOperator(a0) => "Unsupported operator: "@ + seq![a0],
            MathErrorModel::UnsupportedFunction(a0) => "Unsupported function: "@ + a0,
            MathErrorModel::NegativeRoot => "Cannot compute roots of negative numbers with non-integer degree."@,
            MathErrorModel::ZerothRoot => "Cannot compute the zeroth root of a number (mathematically undefined)."@,
            MathErrorModel::DomainError(a0) => "Math domain error: "@ + a0,
            MathErrorModel::Overflow => "Numerical overflow or underflow occurred."@,
            MathErrorModel::NotANumber => "Operation resulted in not-a-number (NaN)."@,
        }
    }
}

impl MathError {
    /// The message shown for the error.
    pub fn to_string(&self) -> (out: String)
        ensures
            out@ == self@.message(),
    {
        let mut out = String::new();
        match self {
            MathError::DivisionByZero => {
                push_text(&mut out, "Division by zero error. Cannot divide by zero.");
            },
            MathError::ModuloByZero => {
                push_text(&mut out, "Modulo by zero error. Cannot compute modulo with zero divisor.");
            },
            MathError::InvalidExponentiation => {
                push_text(&mut out, "Invalid exponentiation. Cannot raise a negative number to a fractional power.");
            },
            MathError::UnsupportedOperator(a0) => {
                push_text(&mut out, "Unsupported operator: ");
                out.push(*a0);
            },
            MathError::UnsupportedFunction(a0) => {
                push_text(&mut out, "Unsupported function: ");
                push_text(&mut out, a0.as_str());
            },
            MathError::NegativeRoot => {
                push_text(&mut out, "Cannot compute roots of negative numbers with non-integer degree.");
            },
            MathError::ZerothRoot => {
                push_text(&mut out, "Cannot compute the zeroth root of a number (mathematically undefined).");
            },
            MathError::DomainError(a0) => {
                push_text(&mut out, "Math domain error: ");
                push_text(&mut out, a0.as_str());
            },
            MathError::Overflow => {
                push_text(&mut out, "Numerical overflow or underflow occurred.");
            },
            MathError::NotANumber => {
                push_text(&mut out, "Operation resulted in not-a-number (NaN).");
            },
        }
        out
    }
}

/// Errors about variables and symbols.
#[derive(Debug)]
pub enum SymbolError {
    /// A referenced variable was not found.
    VariableNotFound(String),
    /// An assignment to a variable that was not declared with `let`.
    UndeclaredVariable(String),
    /// An attempt to modify a constant.
    ImmutableConstant(String),
    /// Redefinition of a constant or variable.
    Redefinition(String),
    /// Invalid variable or constant name.
    InvalidIdentifier(String),
}

/// What a [`SymbolError`] says, with texts as character sequences.
pub enum SymbolErrorModel {
    VariableNotFound(Seq<char>),
    UndeclaredVariable(Seq<char>),
    ImmutableConstant(Seq<char>),
    Redefinition(Seq<char>),
    InvalidIdentifier(Seq<char>),
}

impl View for SymbolError {
    type V = SymbolErrorModel;

    open spec fn view(&self) -> SymbolErrorModel {
        match self {
            SymbolError::VariableNotFound(a0) => SymbolErrorModel::VariableNotFound(a0@),
            SymbolError::UndeclaredVariable(a0) => SymbolErrorModel::UndeclaredVariable(a0@),
            SymbolError::ImmutableConstant(a0) => SymbolErrorModel::ImmutableConstant(a0@),
            SymbolError::Redefinition(a0) => SymbolErrorModel::Redefinition(a0@),
            SymbolError::InvalidIdentifier(a0) => SymbolErrorModel::InvalidIdentifier(a0@),
        }
    }
}

impl SymbolErrorModel {
    /// The message shown for the error.
    pub open spec fn message(self) -> Seq<char> {
        match self {
            SymbolErrorModel::VariableNotFound(a0) => "Variable '"@ + a0 + "' not found. Make sure it is defined before use."@,
            SymbolErrorModel::UndeclaredVariable(a0) => "Undeclared variable: '"@ + a0 + "'. Variables must be declared with 'let' before assignment."@,
            SymbolErrorModel::ImmutableConstant(a0) => "Cannot modify constant: '"@ + a0 + "'. Constants declared with 'const' are immutable."@,
            SymbolErrorModel::Redefinition(a0) => "Redefinition of '"@ + a0 + "' in the same scope."@,
            SymbolErrorModel::InvalidIdentifier(a0) => "Invalid identifier name: '"@ + a0 + "'."@,
        }
    }
}

impl SymbolError {
    /// The message shown for the error.
    pub fn to_string(&self) -> (out: String)
        ensures
            out@ == self@.message(),
    {
        let mut out = String::new();
        match self {
            SymbolError::VariableNotFound(a0) => {
                push_text(&mut out, "Variable '");
                push_text(&mut out, a0.as_str());
                push_text(&mut out, "' not found. Make sure it is defined before use.");
            },
            SymbolError::UndeclaredVariable(a0) => {
                push_text(&mut out, "Undeclared variable: '");
                push_text(&mut out, a0.as_str());
                push_text(&mut out, "'. Variables must be declared with 'let' before assignment.");
            },
            SymbolError::ImmutableConstant(a0) => {
                push_text(&mut out, "Cannot modify constant: '");
                push_text(&mut out, a0.as_str());
                push_text(&mut out, "'. Constants declared with 'const' are immutable.");
            },
            SymbolError::Redefinition(a0) => {
                push_text(&mut out, "Redefinition of '");
                push_text(&mut out, a0.as_str());
                push_text(&mut out, "' in the same scope.");
            },
            SymbolError::InvalidIdentifier(a0) => {
                push_text(&mut out, "Invalid identifier name: '");
                push_text(&mut out, a0.as_str());
                push_text(&mut out, "'.");
            },
        }
        out
    }
}

/// Errors about control flow.
#[derive(Debug)]
pub enum ControlFlowError {
    /// A condition evaluated to a non-boolean value.
    NonBooleanCondition,
    /// A break statement outside a loop.
    BreakOutsideLoop,
    /// A continue statement outside a loop.
    ContinueOutsideLoop,
    /// A return statement outside a function.
    ReturnOutsideFunction,
    /// Invalid use of a return statement.
    InvalidReturnStatement(String),
    /// The feature is not implemented.
    UnimplementedFeature(String),
    /// A function or procedure of that name is already defined.
    FunctionOrProcedureAlreadyDefined {
        name: String,
        kind: String,
    },
    /// No function or procedure of that name.
    FunctionOrProcedureNotFound {
        name: String,
    },
    /// Wrong number of arguments in a call.
    WrongArgumentCount {
        name: String,
        expected: usize,
        got: usize,
    },
}

/// What a [`ControlFlowError`] says, with texts as character sequences.
pub enum ControlFlowErrorModel {
    NonBooleanCondition,
    BreakOutsideLoop,
    ContinueOutsideLoop,
    ReturnOutsideFunction,
    InvalidReturnStatement(Seq<char>),
    UnimplementedFeature(Seq<char>),
    FunctionOrProcedureAlreadyDefined {
        name: Seq<char>,
        kind: Seq<char>,
    },
    FunctionOrProcedureNotFound {
        name: Seq<char>,
    },
    WrongArgumentCount {
        name: Seq<char>,
        expected: usize,
        got: usize,
    },
}

impl View for ControlFlowError {
    type V = ControlFlowErrorModel;

    open spec fn view(&self) -> ControlFlowErrorModel {
        match self {
            ControlFlowError::NonBooleanCondition => ControlFlowErrorModel::NonBooleanCondition,
            ControlFlowError::BreakOutsideLoop => ControlFlowErrorModel::BreakOutsideLoop,
            ControlFlowError::ContinueOutsideLoop => ControlFlowErrorModel::ContinueOutsideLoop,
            ControlFlowError::ReturnOutsideFunction => ControlFlowErrorModel::ReturnOutsideFunction,
            ControlFlowError::InvalidReturnStatement(a0) => ControlFlowErrorModel::InvalidReturnStatement(a0@),
            ControlFlowError::UnimplementedFeature(a0) => ControlFlowErrorModel::UnimplementedFeature(a0@),
            ControlFlowError::FunctionOrProcedureAlreadyDefined { name, kind } => (ControlFlowErrorModel::FunctionOrProcedureAlreadyDefined {
                name: name@,
                kind: kind@,
            }),
            ControlFlowError::FunctionOrProcedureNotFound { name } => (ControlFlowErrorModel::FunctionOrProcedureNotFound {
                name: name@,
            }),
            ControlFlowError::WrongArgumentCount { name, expected, got } => (ControlFlowErrorModel::WrongArgumentCount {
                name: name@,
                expected: *expected,
                got: *got,
            }),
        }
    }
}

impl ControlFlowErrorModel {
    /// The message shown for the error.
    pub open spec fn message(self) -> Seq<char> {
        match self {
            ControlFlowErrorModel::NonBooleanCondition => "Condition must evaluate to a boolean value (non-zero for true, zero for false)."@,
            ControlFlowErrorModel::BreakOutsideLoop => "Break statement used outside a loop. 'break' can only be used within a 'while' loop."@,
            ControlFlowErrorModel::ContinueOutsideLoop => "Continue statement used outside a loop. 'continue' can only be used within a 'while' loop."@,
            ControlFlowErrorModel::ReturnOutsideFunction => "Return statement used outside a function or procedure. 'return' can only be used within a function or procedure."@,
            ControlFlowErrorModel::InvalidReturnStatement(a0) => "Invalid return statement usage: "@ + a0,
            ControlFlowErrorModel::UnimplementedFeature(a0) => "Unimplemented feature: "@ + a0,
            ControlFlowErrorModel::FunctionOrProcedureAlreadyDefined { name, kind } => kind + " '"@ + name + "' already defined in the same scope."@,
            ControlFlowErrorModel::FunctionOrProcedureNotFound { name } => "No callable item named '"@ + name + "' was found. Make sure the function or procedure is defined before calling it."@,
            ControlFlowErrorModel::WrongArgumentCount { name, expected, got } => "Callable '"@ + name + "' called with wrong number of arguments. Expected "@ + decimal(expected as nat) + ", got "@ + decimal(got as nat) + "."@,
        }
    }
}

impl ControlFlowError {
    /// The message shown for the error.
    pub fn to_string(&self) -> (out: String)
        ensures
            out@ == self@.message(),
    {
        let mut out = String::new();
        match self {
            ControlFlowError::NonBooleanCondition => {
                push_text(&mut out, "Condition must evaluate to a boolean value (non-zero for true, zero for false).");
            },
            ControlFlowError::BreakOutsideLoop => {
                push_text(&mut out, "Break statement used outside a loop. 'break' can only be used within a 'while' loop.");
            },
            ControlFlowError::ContinueOutsideLoop => {
                push_text(&mut out, "Continue statement used outside a loop. 'continue' can only be used within a 'while' loop.");
            },
            ControlFlowError::ReturnOutsideFunction => {
                push_text(&mut out, "Return statement used outside a function or procedure. 'return' can only be used within a function or procedure.");
            },
            ControlFlowError::InvalidReturnStatement(a0) => {
                push_text(&mut out, "Invalid return statement usage: ");
                push_text(&mut out, a0.as_str());
            },
            ControlFlowError::UnimplementedFeature(a0) => {
                push_text(&mut out, "Unimplemented feature: ");
                push_text(&mut out, a0.as_str());
            },
            ControlFlowError::FunctionOrProcedureAlreadyDefined { name, kind } => {
                push_text(&mut out, kind.as_str());
                push_text(&mut out, " '");
                push_text(&mut out, name.as_str());
                push_text(&mut out, "' already defined in the same scope.");
            },
            ControlFlowError::FunctionOrProcedureNotFound { name } => {
                push_text(&mut out, "No callable item named '");
                push_text(&mut out, name.as_str());
                push_text(&mut out, "' was found. Make sure the function or procedure is defined before calling it.");
            },
            ControlFlowError::WrongArgumentCount { name, expected, got } => {
                push_text(&mut out, "Callable '");
                push_text(&mut out, name.as_str());
                push_text(&mut out, "' called with wrong number of arguments. Expected ");
                push_decimal(&mut out, *expected as u64);
                push_text(&mut out, ", got ");
                push_decimal(&mut out, *got as u64);
                push_text(&mut out, ".");
            },
        }
        out
    }
}

/// Error during evaluation of an expression or a statement.
#[derive(Debug)]
pub enum EvalError {
    /// Errors of mathematical operations.
    MathError(MathError),
    /// Errors about variables and symbols.
    SymbolError(SymbolError),
    /// Errors about control flow.
    ControlFlowError(ControlFlowError),
}

/// What a [`EvalError`] says, with texts as character sequences.
pub enum EvalErrorModel {
    MathError(MathErrorModel),
    SymbolError(SymbolErrorModel),
    ControlFlowError(ControlFlowErrorModel),
}

impl View for EvalError {
    type V = EvalErrorModel;

    open spec fn view(&self) -> EvalErrorModel {
        match self {
            EvalError::MathError(a0) => EvalErrorModel::MathError(a0@),
            EvalError::SymbolError(a0) => EvalErrorModel::SymbolError(a0@),
            EvalError::ControlFlowError(a0) => EvalErrorModel::ControlFlowError(a0@),
        }
    }
}

impl EvalErrorModel {
    /// The message shown for the error.
    pub open spec fn message(self) -> Seq<char> {
        match self {
            EvalErrorModel::MathError(a0) => a0.message(),
            EvalErrorModel::SymbolError(a0) => a0.message(),
            EvalErrorModel::ControlFlowError(a0) => a0.message(),
        }
    }
}

impl EvalError {
    /// The message shown for the error.
    pub fn to_string(&self) -> (out: String)
        ensures
            out@ == self@.message(),
    {
        let mut out = String::new();
        match self {
            EvalError::MathError(a0) => {
                let inner = a0.to_string();
                push_text(&mut out, inner.as_str());
            },
            EvalError::SymbolError(a0) => {
                let inner = a0.to_string();
                push_text(&mut out, inner.as_str());
            },
            EvalError::ControlFlowError(a0) => {
                let inner = a0.to_string();
                push_text(&mut out, inner.as_str());
            },
        }
        out
    }
}

/// Error during execution of a statement or script.
#[derive(Debug)]
pub enum ExecutionError {
    /// An invalid statement was to be executed.
    InvalidStatement(String),
    /// Type mismatch.
    TypeMismatch {
        expected: String,
        actual: String,
    },
    /// Too much recursion or too deeply nested a statement.
    StackOverflow,
    /// Maximum execution time exceeded.
    TimeoutExceeded,
    /// The step budget of the run was used up.
    MaxIterationsExceeded,
    /// General execution error with message.
    ExecutionFailed(String),
    /// Error propagated from evaluation.
    EvaluationError(EvalError),
}

/// What a [`ExecutionError`] says, with texts as character sequences.
pub enum ExecutionErrorModel {
    InvalidStatement(Seq<char>),
    TypeMismatch {
        expected: Seq<char>,
        actual: Seq<char>,
    },
    StackOverflow,
    TimeoutExceeded,
    MaxIterationsExceeded,
    ExecutionFailed(Seq<char>),
    EvaluationError(EvalErrorModel),
}

impl View for ExecutionError {
    type V = ExecutionErrorModel;

    open spec fn view(&self) -> ExecutionErrorModel {
        match self {
            ExecutionError::InvalidStatement(a0) => ExecutionErrorModel::InvalidStatement(a0@),
            ExecutionError::TypeMismatch { expected, actual } => (ExecutionErrorModel::TypeMismatch {
                expected: expected@,
                actual: actual@,
            }),
            ExecutionError::StackOverflow => ExecutionErrorModel::StackOverflow,
            ExecutionError::TimeoutExceeded => ExecutionErrorModel::TimeoutExceeded,
            ExecutionError::MaxIterationsExceeded => ExecutionErrorModel::MaxIterationsExceeded,
            ExecutionError::ExecutionFailed(a0) => ExecutionErrorModel::ExecutionFailed(a0@),
            ExecutionError::EvaluationError(a0) => ExecutionErrorModel::EvaluationError(a0@),
        }
    }
}

impl ExecutionErrorModel {
    /// The message shown for the error.
    pub open spec fn message(self) -> Seq<char> {
        match self {
            ExecutionErrorModel::InvalidStatement(a0) => "Invalid statement: "@ + a0,
            ExecutionErrorModel::TypeMismatch { expected, actual } => "Type mismatch: expected "@ + expected + ", found "@ + actual,
            ExecutionErrorModel::StackOverflow => "Stack overflow: execution too deeply nested"@,
            ExecutionErrorModel::TimeoutExceeded => "Execution timeout exceeded"@,
            ExecutionErrorModel::MaxIterationsExceeded => "Maximum iterations exceeded"@,
            ExecutionErrorModel::ExecutionFailed(a0) => "Execution failed: "@ + a0,
            ExecutionErrorModel::EvaluationError(a0) => "Evaluation error: "@ + a0.message(),
        }
    }
}

impl ExecutionError {
    /// The message shown for the error.
    pub fn to_string(&self) -> (out: String)
        ensures
            out@ == self@.message(),
    {
        let mut out = String::new();
        match self {
            ExecutionError::InvalidStatement(a0) => {
                push_text(&mut out, "Invalid statement: ");
                push_text(&mut out, a0.as_str());
            },
            ExecutionError::TypeMismatch { expected, actual } => {
                push_text(&mut out, "Type mismatch: expected ");
                push_text(&mut out, expected.as_str());
                push_text(&mut out, ", found ");
                push_text(&mut out, actual.as_str());
            },
            ExecutionError::StackOverflow => {
                push_text(&mut out, "Stack overflow: execution too deeply nested");
            },
            ExecutionError::TimeoutExceeded => {
                push_text(&mut out, "Execution timeout exceeded");
            },
            ExecutionError::MaxIterationsExceeded => {
                push_text(&mut out, "Maximum iterations exceeded");
            },
            ExecutionError::ExecutionFailed(a0) => {
                push_text(&mut out, "Execution failed: ");
                push_text(&mut out, a0.as_str());
            },
            ExecutionError::EvaluationError(a0) => {
                push_text(&mut out, "Evaluation error: ");
                let inner = a0.to_string();
                push_text(&mut out, inner.as_str());
            },
        }
        out
    }
}

/// Any error of the interpreter.
#[derive(Debug)]
pub enum InterpreterError {
    /// A parsing error occurred.
    Parse(ParseError),
    /// An evaluation error occurred.
    Eval(EvalError),
    /// An execution error occurred.
    Exec(ExecutionError),
}

/// What a [`InterpreterError`] says, with texts as character sequences.
pub enum InterpreterErrorModel {
    Parse(ParseErrorModel),
    Eval(EvalErrorModel),
    Exec(ExecutionErrorModel),
}

impl View for InterpreterError {
    type V = InterpreterErrorModel;

    open spec fn view(&self) -> InterpreterErrorModel {
        match self {
            InterpreterError::Parse(a0) => InterpreterErrorModel::Parse(a0@),
            InterpreterError::Eval(a0) => InterpreterErrorModel::Eval(a0@),
            InterpreterError::Exec(a0) => InterpreterErrorModel::Exec(a0@),
        }
    }
}

impl InterpreterErrorModel {
    /// The message shown for the error.
    pub open spec fn message(self) -> Seq<char> {
        match self {
            InterpreterErrorModel::Parse(a0) => "Parse error: "@ + a0.message(),
            InterpreterErrorModel::Eval(a0) => "Evaluation error: "@ + a0.message(),
            InterpreterErrorModel::Exec(a0) => "Execution error: "@ + a0.message(),
        }
    }
}

impl InterpreterError {
    /// The message shown for the error.
    pub fn to_string(&self) -> (out: String)
        ensures
            out@ == self@.message(),
    {
        let mut out = String::new();
        match self {
            InterpreterError::Parse(a0) => {
                push_text(&mut out, "Parse error: ");
                let inner = a0.to_string();
                push_text(&mut out, inner.as_str());
            },
            InterpreterError::Eval(a0) => {
                push_text(&mut out, "Evaluation error: ");
                let inner = a0.to_string();
                push_text(&mut out, inner.as_str());
            },
            InterpreterError::Exec(a0) => {
                push_text(&mut out, "Execution error: ");
                let inner = a0.to_string();
                push_text(&mut out, inner.as_str());
            },
        }
        out
    }
}

} // verus!
