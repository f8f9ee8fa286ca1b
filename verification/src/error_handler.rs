//! The categories under which the front-ends show errors.

use vstd::prelude::*;
use crate::text::chars_of;
use crate::utils::{find_in, found};

verus! {

/// The category of an error, for the way it is shown.
#[derive(Debug, Clone, Copy, PartialEq, Eq, Structural)]
pub enum ErrorCategory {
    /// Errors of syntax or parsing.
    Syntax,
    /// Errors during execution or computation.
    Runtime,
    /// Errors with the access to variables or their change.
    Variable,
    /// Errors of permissions or of the platform.
    System,
    /// Any other error.
    General,
}

/// Whether `mark` stands somewhere in `s`.
pub open spec fn holds(s: Seq<char>, mark: Seq<char>) -> bool {
    found(s, 0, mark) is Some
}

impl ErrorCategory {
    /// The category that the wording of `message` points to.
    pub open spec fn of_message(message: Seq<char>) -> ErrorCategory {
        if holds(message, "Parser error"@) || holds(message, "syntax"@) {
            ErrorCategory::Syntax
        } else if holds(message, "division by zero"@) || holds(message, "Invalid exponentiation"@) {
            ErrorCategory::Runtime
        } else if holds(message, "Variable"@) || holds(message, "constant"@) {
            ErrorCategory::Variable
        } else {
            ErrorCategory::General
        }
    }

    /// The title under which errors of the category are shown.
    pub fn title(&self) -> (out: &'static str)
        ensures
            out@ == match self {
                ErrorCategory::Syntax => "Syntax Error"@,
                ErrorCategory::Runtime => "Calculation Error"@,
                ErrorCategory::Variable => "Variable Error"@,
                ErrorCategory::System => "System Error"@,
                ErrorCategory::General => "Error"@,
            },
    {
        match self {
            ErrorCategory::Syntax => "Syntax Error",
            ErrorCategory::Runtime => "Calculation Error",
            ErrorCategory::Variable => "Variable Error",
            ErrorCategory::System => "System Error",
            ErrorCategory::General => "Error",
        }
    }

    /// The colour in which errors of the category are shown, as red, green
    /// and blue; none for the category that has the colour that the
    /// platform gives to errors.
    pub fn color(&self) -> (out: Option<(u8, u8, u8)>)
        ensures
            out == match self {
                ErrorCategory::Syntax => Some((230u8, 126u8, 34u8)),
                ErrorCategory::Runtime => Some((231u8, 76u8, 60u8)),
                ErrorCategory::Variable => Some((155u8, 89u8, 182u8)),
                ErrorCategory::System => Some((52u8, 152u8, 219u8)),
                ErrorCategory::General => None,
            },
    {
        match self {
            ErrorCategory::Syntax => Some((230, 126, 34)),
            ErrorCategory::Runtime => Some((231, 76, 60)),
            ErrorCategory::Variable => Some((155, 89, 182)),
            ErrorCategory::System => Some((52, 152, 219)),
            ErrorCategory::General => None,
        }
    }

    /// What to try against errors of the category.
    pub fn suggestion(&self) -> (out: &'static str)
        ensures
            out@ == match self {
                ErrorCategory::Syntax => "Check your expression for typos or missing parentheses."@,
                ErrorCategory::Runtime => "Verify your calculation doesn't involve division by zero or other invalid operations."@,
                ErrorCategory::Variable => "Make sure variables are declared before use and constants aren't being modified."@,
                ErrorCategory::System => "Try again later or contact the bot administrator."@,
                ErrorCategory::General => "Try simplifying your input or check the help command."@,
            },
    {
        match self {
            ErrorCategory::Syntax => "Check your expression for typos or missing parentheses.",
            ErrorCategory::Runtime => "Verify your calculation doesn't involve division by zero or other invalid operations.",
            ErrorCategory::Variable => "Make sure variables are declared before use and constants aren't being modified.",
            ErrorCategory::System => "Try again later or contact the bot administrator.",
            ErrorCategory::General => "Try simplifying your input or check the help command.",
        }
    }

    /// The category that the wording of `message` points to.
    pub fn from_message(message: &str) -> (out: ErrorCategory)
        ensures
            out == ErrorCategory::of_message(message@),
    {
        let chars = chars_of(message);
        if contains(&chars, "Parser error") || contains(&chars, "syntax") {
            ErrorCategory::Syntax
        } else if contains(&chars, "division by zero") || contains(
            &chars,
            "Invalid exponentiation",
        ) {
            ErrorCategory::Runtime
        } else if contains(&chars, "Variable") || contains(&chars, "constant") {
            ErrorCategory::Variable
        } else {
            ErrorCategory::General
        }
    }
}

fn contains(chars: &Vec<char>, mark: &str) -> (out: bool)
    ensures
        out == holds(chars@, mark@),
{
    let mark = chars_of(mark);
    find_in(chars, 0, &mark).is_some()
}

} // verus!
