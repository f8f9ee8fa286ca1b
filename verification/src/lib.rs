//! An embeddable expression and scripting language: a lexer, a Pratt
//! parser for expressions, a recursive-descent parser for statements, and
//! a tree-walking evaluator over scoped symbol tables.
//!
//! The two entry points are [`evaluate`] for a single expression and
//! [`execute`] for a program. Numbers are single-precision binary numbers
//! held as bit patterns; the arithmetic on them is done by an
//! [`Arithmetic`] unit that the caller provides.

pub mod arithmetic;
pub mod ast_expression;
pub mod ast_statement;
pub mod determinism;
pub mod error_handler;
pub mod error_types;
pub mod evaluation;
pub mod execution_state;
pub mod grammar;
pub mod interpreter;
pub mod laws;
pub mod lexical_analyzer;
pub mod number;
pub mod operators;
pub mod parser;
pub mod semantics;
pub mod symbol_manager;
pub mod text;
pub mod utils;

pub use arithmetic::{Arithmetic, BinaryFunction, UnaryFunction};
pub use ast_expression::Expression;
pub use ast_statement::{ControlFlow, Statement};
pub use error_handler::ErrorCategory;
pub use error_types::{
    ControlFlowError, EvalError, ExecutionError, InterpreterError, MathError, ParseError,
    SymbolError,
};
pub use execution_state::{ExitState, RunState};
pub use interpreter::{evaluate, evaluate_within, execute, execute_within};
pub use lexical_analyzer::{Token, Tokenizer};
pub use number::Number;
pub use parser::{ParsedProgram, Parser};
pub use symbol_manager::{global_constants, GlobalConstants, SymbolTable};
