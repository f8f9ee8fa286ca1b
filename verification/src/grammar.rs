//! The grammar of the language, as functions from a token list and a
//! position to what stands there.
//!
//! Each function answers either with the tree it read and the number of
//! tokens the tree takes, or with the error that stops the reading. The
//! parsers in [`crate::ast_expression`] and [`crate::ast_statement`]
//! compute exactly these answers.

use vstd::prelude::*;
use crate::ast_expression::{expression_models, Expression, ExpressionModel};
use crate::ast_statement::{Statement, StatementModel};
use crate::error_types::{ParseError, ParseErrorModel};
use crate::lexical_analyzer::{TokenModel, Tokenizer};
use crate::text::remaining;

verus! {

/// A tree and the number of tokens it takes, or the error that stops the
/// reading.
pub type Parsed<T> = Result<(T, nat), ParseErrorModel>;

/// The token at `pos`, the end marker behind the list.
pub open spec fn tok(tokens: Seq<TokenModel>, pos: nat) -> TokenModel {
    Tokenizer::token_at(tokens, pos as int)
}

/// The same answer for a reading that began `by` tokens earlier.
pub open spec fn shifted<T>(r: Parsed<T>, by: nat) -> Parsed<T> {
    match r {
        Ok((tree, n)) => Ok((tree, n + by)),
        Err(e) => Err(e),
    }
}

/// Whether a reader that found the tokenizer as `before` and left it as
/// `after` has answered `out` as the grammar asks with `expected`: the
/// tokens are the same, and on success the cursor has moved over the
/// tokens of the tree.
pub open spec fn delivered<T>(
    before: Tokenizer,
    after: Tokenizer,
    out: Result<T, ParseErrorModel>,
    expected: Parsed<T>,
) -> bool {
    &&& after.wf()
    &&& after.tokens() == before.tokens()
    &&& match expected {
        Ok((tree, n)) => out == Ok::<T, ParseErrorModel>(tree) && after.cursor() == before.cursor()
            + n,
        Err(e) => out == Err::<T, ParseErrorModel>(e),
    }
}

/// The model of a parser's answer.
pub open spec fn expression_answer(out: Result<Expression, ParseError>) -> Result<
    ExpressionModel,
    ParseErrorModel,
> {
    match out {
        Ok(e) => Ok(e@),
        Err(e) => Err(e@),
    }
}

/// The model of a parser's answer.
pub open spec fn statement_answer(out: Result<Statement, ParseError>) -> Result<
    StatementModel,
    ParseErrorModel,
> {
    match out {
        Ok(s) => Ok(s@),
        Err(e) => Err(e@),
    }
}

/// The model of a parser's answer.
pub open spec fn value_answer(out: Result<Option<Expression>, ParseError>) -> Result<
    Option<ExpressionModel>,
    ParseErrorModel,
> {
    match out {
        Ok(e) => Ok(crate::ast_statement::optional_model(e)),
        Err(e) => Err(e@),
    }
}

/// The model of a parser's answer.
pub open spec fn names_answer(out: Result<Vec<String>, ParseError>) -> Result<
    Seq<Seq<char>>,
    ParseErrorModel,
> {
    match out {
        Ok(list) => Ok(crate::ast_statement::texts(list@)),
        Err(e) => Err(e@),
    }
}

/// The model of a parser's answer.
pub open spec fn items_answer(out: Result<Vec<Statement>, ParseError>) -> Result<
    Seq<StatementModel>,
    ParseErrorModel,
> {
    match out {
        Ok(list) => Ok(crate::ast_statement::statement_models(list@)),
        Err(e) => Err(e@),
    }
}

/// The model of a parser's answer.
pub open spec fn callable_answer(
    out: Result<(String, Vec<String>, Statement), ParseError>,
) -> Result<(Seq<char>, Seq<Seq<char>>, StatementModel), ParseErrorModel> {
    match out {
        Ok((name, params, body)) => Ok((name@, crate::ast_statement::texts(params@), body@)),
        Err(e) => Err(e@),
    }
}

/// The model of a parser's answer.
pub open spec fn listed_answer(out: Result<Vec<Expression>, ParseError>) -> Result<
    Seq<ExpressionModel>,
    ParseErrorModel,
> {
    match out {
        Ok(list) => Ok(expression_models(list@)),
        Err(e) => Err(e@),
    }
}

/// Binding powers of an infix operator, in tenths: how strongly it holds
/// its left and its right operand, and whether it groups to the left.
pub open spec fn infix_power(op: char) -> Option<(nat, nat, bool)> {
    if op == '=' {
        Some((2, 1, false))
    } else if op == '&' || op == '|' || op == 'x' || op == 'q' || op == 'a' || op == 'o' {
        Some((3, 4, true))
    } else if op == '<' || op == '>' || op == 'g' || op == 'l' || op == 'e' || op == 'n' {
        Some((5, 6, true))
    } else if op == '+' || op == '-' {
        Some((10, 11, true))
    } else if op == '*' || op == '/' || op == '%' {
        Some((20, 21, true))
    } else if op == '.' {
        Some((50, 51, true))
    } else if op == '^' || op == '√' {
        Some((40, 39, false))
    } else {
        None
    }
}

/// Binding power of a prefix operator, in tenths.
pub open spec fn prefix_power(op: char) -> Option<nat> {
    if op == '-' || op == '+' || op == '!' || op == '√' {
        Some(200)
    } else {
        None
    }
}

/// Whether an operator with left power `left` ends an expression that was
/// begun with the threshold `min`.
pub open spec fn yields(left: nat, groups_left: bool, min: nat) -> bool {
    (groups_left && left < min) || (!groups_left && left <= min)
}

/// Whether `t` can begin the second operand of a root.
pub open spec fn begins_operand(t: TokenModel) -> bool {
    t is Literal || t == TokenModel::Operator('(') || t == TokenModel::Operator('√')
}

/// Number of semicolons in a row at `pos`.
pub open spec fn semicolons(tokens: Seq<TokenModel>, pos: nat) -> nat
    decreases remaining(tokens, pos as int),
{
    if tok(tokens, pos) == TokenModel::Operator(';') {
        1 + semicolons(tokens, pos + 1)
    } else {
        0
    }
}

/// One if a semicolon stands at `pos`, zero otherwise.
pub open spec fn semicolon(tokens: Seq<TokenModel>, pos: nat) -> nat {
    if tok(tokens, pos) == TokenModel::Operator(';') {
        1
    } else {
        0
    }
}

/// What is expected behind an argument or a parameter.
pub open spec fn separator_text() -> Seq<char> {
    "comma ',' or closing parenthesis ')'"@
}

/// The error for a token that is not the expected thing.
pub open spec fn expected_error(expected: Seq<char>, found: TokenModel) -> ParseErrorModel {
    ParseErrorModel::Expected { expected, found: found.description() }
}

/// The error for a token that cannot stand where it stands.
pub open spec fn unexpected(found: TokenModel) -> ParseErrorModel {
    ParseErrorModel::UnexpectedToken(found.description())
}

/// Order of the expression readers among the readers that may start at
/// one position.
pub open spec fn expression_order(tokens: Seq<TokenModel>, pos: nat) -> nat {
    if tok(tokens, pos) is Keyword {
        6
    } else {
        2
    }
}

/// Order of the operand reader among the readers that may start at one
/// position.
pub open spec fn operand_order(tokens: Seq<TokenModel>, pos: nat) -> nat {
    if tok(tokens, pos) is Keyword {
        5
    } else {
        1
    }
}

/// The expression at `pos` whose operators all hold more strongly than `min`.
pub open spec fn expression_at(tokens: Seq<TokenModel>, pos: nat, min: nat) -> Parsed<
    ExpressionModel,
>
    decreases remaining(tokens, pos as int), expression_order(tokens, pos),
{
    match operand_at(tokens, pos) {
        Ok((lhs, n)) => shifted(infix_from(tokens, pos + n, min, lhs), n),
        Err(e) => Err(e),
    }
}

/// The operand at `pos`: a group in parentheses, a prefix operation, a
/// call, or a literal.
pub open spec fn operand_at(tokens: Seq<TokenModel>, pos: nat) -> Parsed<ExpressionModel>
    decreases remaining(tokens, pos as int), operand_order(tokens, pos),
{
    match tok(tokens, pos) {
        TokenModel::Keyword(_) => match statement_at(tokens, pos) {
            Ok((StatementModel::Expression(e), n)) => Ok((e, n)),
            Ok((_, n)) => Err(unexpected(tok(tokens, pos + n))),
            Err(e) => Err(e),
        },
        TokenModel::Operator(c) => if c == '(' {
            match expression_at(tokens, pos + 1, 0) {
                Ok((e, n)) => if tok(tokens, pos + 1 + n) == TokenModel::Operator(')') {
                    Ok((e, n + 2))
                } else {
                    Err(ParseErrorModel::UnmatchedParenthesis)
                },
                Err(e) => Err(e),
            }
        } else if prefix_power(c) is Some {
            let power = prefix_power(c)->0;
            match expression_at(tokens, pos + 1, power) {
                Ok((first, n)) => if c == '√' && begins_operand(tok(tokens, pos + 1 + n)) {
                    match expression_at(tokens, pos + 1 + n, power) {
                        Ok((second, m)) => Ok(
                            (ExpressionModel::Operation(c, seq![first, second]), 1 + n + m),
                        ),
                        Err(e) => Err(e),
                    }
                } else {
                    Ok((ExpressionModel::Operation(c, seq![first]), 1 + n))
                },
                Err(e) => Err(e),
            }
        } else {
            Err(unexpected(TokenModel::Operator(c)))
        },
        TokenModel::Literal(text) => if tok(tokens, pos + 1) == TokenModel::Operator('(') {
            if tok(tokens, pos + 2) == TokenModel::Operator(')') {
                Ok((ExpressionModel::FunctionCall(text, Seq::empty()), 3))
            } else {
                match listed_at(tokens, pos + 2, Seq::empty()) {
                    Ok((args, n)) => if tok(tokens, pos + 2 + n) == TokenModel::Operator(')') {
                        Ok((ExpressionModel::FunctionCall(text, args), n + 3))
                    } else {
                        Err(ParseErrorModel::UnmatchedParenthesis)
                    },
                    Err(e) => Err(e),
                }
            }
        } else {
            Ok((ExpressionModel::Literal(text), 1))
        },
        other => Err(unexpected(other)),
    }
}

/// The expressions at `pos` with commas between them, behind those in `done`.
pub open spec fn listed_at(
    tokens: Seq<TokenModel>,
    pos: nat,
    done: Seq<ExpressionModel>,
) -> Parsed<Seq<ExpressionModel>>
    decreases remaining(tokens, pos as int), 7nat,
{
    match expression_at(tokens, pos, 0) {
        Ok((e, n)) => if tok(tokens, pos + n) == TokenModel::Operator(',') {
            shifted(listed_at(tokens, pos + n + 1, done.push(e)), n + 1)
        } else {
            Ok((done.push(e), n))
        },
        Err(e) => Err(e),
    }
}

/// The expression that begins with `lhs` and goes on at `pos` with infix
/// operators that hold more strongly than `min`.
pub open spec fn infix_from(
    tokens: Seq<TokenModel>,
    pos: nat,
    min: nat,
    lhs: ExpressionModel,
) -> Parsed<ExpressionModel>
    decreases remaining(tokens, pos as int), 0nat,
{
    match tok(tokens, pos) {
        TokenModel::Operator(op) => if op == ')' || op == ',' || op == ';' {
            Ok((lhs, 0))
        } else if infix_power(op) is Some {
            let (left, right, groups_left) = infix_power(op)->0;
            if yields(left, groups_left, min) {
                Ok((lhs, 0))
            } else {
                match expression_at(tokens, pos + 1, right) {
                    Ok((rhs, n)) => shifted(
                        infix_from(
                            tokens,
                            pos + 1 + n,
                            min,
                            ExpressionModel::Operation(op, seq![lhs, rhs]),
                        ),
                        1 + n,
                    ),
                    Err(e) => Err(e),
                }
            }
        } else {
            Ok((lhs, 0))
        },
        TokenModel::AugAssign(text) => if text.len() == 0 {
            Err(unexpected(TokenModel::AugAssign(text)))
        } else {
            match expression_at(tokens, pos + 1, 0) {
                Ok((rhs, n)) => shifted(
                    infix_from(
                        tokens,
                        pos + 1 + n,
                        min,
                        ExpressionModel::Operation(
                            '=',
                            seq![lhs, ExpressionModel::Operation(text[0], seq![lhs, rhs])],
                        ),
                    ),
                    1 + n,
                ),
                Err(e) => Err(e),
            }
        },
        _ => Ok((lhs, 0)),
    }
}

/// The statement at `pos`, with the semicolon that may close it.
pub open spec fn statement_at(tokens: Seq<TokenModel>, pos: nat) -> Parsed<StatementModel>
    decreases remaining(tokens, pos as int), 4nat,
{
    let body = match tok(tokens, pos) {
        TokenModel::EndOfInput => Err(ParseErrorModel::EmptyInput),
        TokenModel::Keyword(word) => shifted(keyword_at(tokens, pos + 1, word), 1),
        TokenModel::Operator(c) => if c == '{' {
            block_at(tokens, pos)
        } else {
            match expression_at(tokens, pos, 0) {
                Ok((e, n)) => Ok((StatementModel::Expression(e), n)),
                Err(e) => Err(e),
            }
        },
        TokenModel::Literal(name) => if tok(tokens, pos + 1) == TokenModel::Operator('(') {
            shifted(call_at(tokens, pos + 1, name), 1)
        } else {
            match expression_at(tokens, pos, 0) {
                Ok((e, n)) => Ok((StatementModel::Expression(e), n)),
                Err(e) => Err(e),
            }
        },
        TokenModel::AugAssign(_) => match expression_at(tokens, pos, 0) {
            Ok((e, n)) => Ok((StatementModel::Expression(e), n)),
            Err(e) => Err(e),
        },
    };
    match body {
        Ok((s, n)) => Ok((s, n + semicolon(tokens, pos + n))),
        Err(e) => Err(e),
    }
}

/// The statement that the reserved word `word` begins, from the token
/// behind the word on.
pub open spec fn keyword_at(tokens: Seq<TokenModel>, pos: nat, word: Seq<char>) -> Parsed<
    StatementModel,
>
    decreases remaining(tokens, pos as int), 9nat,
{
    if word == "if"@ {
        conditional_at(tokens, pos)
    } else if word == "while"@ {
        loop_at(tokens, pos)
    } else if word == "break"@ {
        Ok((StatementModel::Break, 0))
    } else if word == "continue"@ {
        Ok((StatementModel::Continue, 0))
    } else if word == "return"@ {
        return_at(tokens, pos)
    } else if word == "let"@ {
        declaration_at(tokens, pos)
    } else if word == "const"@ {
        constant_at(tokens, pos)
    } else if word == "end"@ {
        end_at(tokens, pos)
    } else if word == "fn"@ {
        function_at(tokens, pos)
    } else if word == "proc"@ {
        procedure_at(tokens, pos)
    } else {
        Err(ParseErrorModel::UnexpectedToken(word))
    }
}

/// The `return` statement whose value, if it has one, stands at `pos`.
pub open spec fn return_at(tokens: Seq<TokenModel>, pos: nat) -> Parsed<StatementModel>
    decreases remaining(tokens, pos as int), 8nat,
{
    match value_at(tokens, pos) {
        Ok((value, n)) => Ok((StatementModel::Return(value), n)),
        Err(e) => Err(e),
    }
}

/// The `end` statement whose value, if it has one, stands at `pos`.
pub open spec fn end_at(tokens: Seq<TokenModel>, pos: nat) -> Parsed<StatementModel>
    decreases remaining(tokens, pos as int), 8nat,
{
    match value_at(tokens, pos) {
        Ok((value, n)) => Ok((StatementModel::End(value), n)),
        Err(e) => Err(e),
    }
}

/// The function declaration whose name stands at `pos`.
pub open spec fn function_at(tokens: Seq<TokenModel>, pos: nat) -> Parsed<StatementModel>
    decreases remaining(tokens, pos as int), 8nat,
{
    match callable_at(tokens, pos, "function name"@, "function body block"@) {
        Ok(((name, params, body), n)) => Ok(
            (StatementModel::Function { name, params, body: Box::new(body) }, n),
        ),
        Err(e) => Err(e),
    }
}

/// The procedure declaration whose name stands at `pos`.
pub open spec fn procedure_at(tokens: Seq<TokenModel>, pos: nat) -> Parsed<StatementModel>
    decreases remaining(tokens, pos as int), 8nat,
{
    match callable_at(tokens, pos, "procedure name"@, "procedure body block"@) {
        Ok(((name, params, body), n)) => Ok(
            (StatementModel::Procedure { name, params, body: Box::new(body) }, n),
        ),
        Err(e) => Err(e),
    }
}

/// The call of `name` whose opening parenthesis stands at `pos`.
pub open spec fn call_at(tokens: Seq<TokenModel>, pos: nat, name: Seq<char>) -> Parsed<
    StatementModel,
>
    decreases remaining(tokens, pos as int), 8nat,
{
    if tok(tokens, pos) != TokenModel::Operator('(') {
        Err(expected_error("opening parenthesis '('"@, tok(tokens, pos)))
    } else if tok(tokens, pos + 1) == TokenModel::Operator(')') {
        Ok((StatementModel::ProcedureCall { name, args: Seq::empty() }, 2))
    } else {
        match arguments_at(tokens, pos + 1, Seq::empty()) {
            Ok((args, n)) => Ok((StatementModel::ProcedureCall { name, args }, n + 1)),
            Err(e) => Err(e),
        }
    }
}

/// The arguments of a call statement at `pos`, behind those in `done`, with
/// the parenthesis that closes them.
pub open spec fn arguments_at(
    tokens: Seq<TokenModel>,
    pos: nat,
    done: Seq<ExpressionModel>,
) -> Parsed<Seq<ExpressionModel>>
    decreases remaining(tokens, pos as int), 7nat,
{
    match expression_at(tokens, pos, 0) {
        Ok((e, n)) => {
            let next = tok(tokens, pos + n);
            if next == TokenModel::Operator(',') {
                shifted(arguments_at(tokens, pos + n + 1, done.push(e)), n + 1)
            } else if next == TokenModel::Operator(')') {
                Ok((done.push(e), n + 1))
            } else {
                Err(expected_error(separator_text(), next))
            }
        },
        Err(e) => Err(e),
    }
}

/// The parameter names at `pos`, behind those in `done`, with the
/// parenthesis that closes them.
pub open spec fn parameters_at(tokens: Seq<TokenModel>, pos: nat, done: Seq<Seq<char>>) -> Parsed<
    Seq<Seq<char>>,
>
    decreases remaining(tokens, pos as int),
{
    match tok(tokens, pos) {
        TokenModel::Literal(name) => {
            let next = tok(tokens, pos + 1);
            if next == TokenModel::Operator(',') {
                shifted(parameters_at(tokens, pos + 2, done.push(name)), 2)
            } else if next == TokenModel::Operator(')') {
                Ok((done.push(name), 2))
            } else {
                Err(expected_error(separator_text(), next))
            }
        },
        other => Err(expected_error("parameter name"@, other)),
    }
}

/// Name, parameters and body of a function or procedure declaration whose
/// name stands at `pos`.
pub open spec fn callable_at(
    tokens: Seq<TokenModel>,
    pos: nat,
    name_text: Seq<char>,
    body_text: Seq<char>,
) -> Parsed<(Seq<char>, Seq<Seq<char>>, StatementModel)>
    decreases remaining(tokens, pos as int), 7nat,
{
    match tok(tokens, pos) {
        TokenModel::Literal(name) => if tok(tokens, pos + 1) != TokenModel::Operator('(') {
            Err(expected_error("opening parenthesis '('"@, tok(tokens, pos + 1)))
        } else {
            let listed = if tok(tokens, pos + 2) == TokenModel::Operator(')') {
                Ok((Seq::empty(), 1))
            } else {
                parameters_at(tokens, pos + 2, Seq::empty())
            };
            match listed {
                Ok((params, n)) => if tok(tokens, pos + 2 + n) == TokenModel::Operator('{') {
                    match block_at(tokens, pos + 2 + n) {
                        Ok((body, m)) => Ok(((name, params, body), 2 + n + m)),
                        Err(e) => Err(e),
                    }
                } else {
                    Err(expected_error(body_text, tok(tokens, pos + 2 + n)))
                },
                Err(e) => Err(e),
            }
        },
        other => Err(expected_error(name_text, other)),
    }
}

/// The block whose opening brace stands at `pos`.
pub open spec fn block_at(tokens: Seq<TokenModel>, pos: nat) -> Parsed<StatementModel>
    decreases remaining(tokens, pos as int), 3nat,
{
    if tok(tokens, pos) != TokenModel::Operator('{') {
        Err(ParseErrorModel::ExpectedBlock)
    } else {
        match items_at(tokens, pos + 1, Seq::empty()) {
            Ok((items, n)) => Ok((StatementModel::Block(items), n + 1)),
            Err(e) => Err(e),
        }
    }
}

/// How far the reading moves on behind a statement of `n` tokens.
pub open spec fn step(n: nat) -> nat {
    if n == 0 {
        1
    } else {
        n
    }
}

/// The statements of a block at `pos`, behind those in `done`, with the
/// brace that closes the block. Semicolons between them are passed over.
pub open spec fn items_at(tokens: Seq<TokenModel>, pos: nat, done: Seq<StatementModel>) -> Parsed<
    Seq<StatementModel>,
>
    decreases remaining(tokens, pos as int), 7nat,
{
    let t = tok(tokens, pos);
    if t == TokenModel::Operator('}') {
        Ok((done, 1))
    } else if t == TokenModel::EndOfInput {
        Err(ParseErrorModel::ExpectedBlock)
    } else if t == TokenModel::Operator(';') {
        shifted(items_at(tokens, pos + 1, done), 1)
    } else {
        match statement_at(tokens, pos) {
            Ok((s, n)) => shifted(items_at(tokens, pos + step(n), done.push(s)), step(n)),
            Err(e) => Err(e),
        }
    }
}

/// A branch of a conditional or the body of a loop at `pos`: a block or a
/// single statement.
pub open spec fn branch_at(tokens: Seq<TokenModel>, pos: nat) -> Parsed<StatementModel>
    decreases remaining(tokens, pos as int), 5nat,
{
    if tok(tokens, pos) == TokenModel::Operator('{') {
        block_at(tokens, pos)
    } else {
        statement_at(tokens, pos)
    }
}

/// The conditional whose condition stands at `pos`.
pub open spec fn conditional_at(tokens: Seq<TokenModel>, pos: nat) -> Parsed<StatementModel>
    decreases remaining(tokens, pos as int), 7nat,
{
    match expression_at(tokens, pos, 0) {
        Ok((condition, n)) => {
            let n1 = n + semicolons(tokens, pos + n);
            match branch_at(tokens, pos + n1) {
                Ok((then_branch, m)) => {
                    let n2 = n1 + m + semicolons(tokens, pos + n1 + m);
                    if tok(tokens, pos + n2) == TokenModel::Keyword("else"@) {
                        let other = if tok(tokens, pos + n2 + 1) == TokenModel::Keyword("if"@) {
                            shifted(conditional_at(tokens, pos + n2 + 2), 1)
                        } else {
                            branch_at(tokens, pos + n2 + 1)
                        };
                        match other {
                            Ok((else_branch, k)) => Ok(
                                (
                                    StatementModel::If {
                                        condition,
                                        then_branch: Box::new(then_branch),
                                        else_branch: Some(Box::new(else_branch)),
                                    },
                                    n2 + 1 + k,
                                ),
                            ),
                            Err(e) => Err(e),
                        }
                    } else {
                        Ok(
                            (
                                StatementModel::If {
                                    condition,
                                    then_branch: Box::new(then_branch),
                                    else_branch: None,
                                },
                                n2,
                            ),
                        )
                    }
                },
                Err(e) => Err(e),
            }
        },
        Err(e) => Err(e),
    }
}

/// The loop whose condition stands at `pos`.
pub open spec fn loop_at(tokens: Seq<TokenModel>, pos: nat) -> Parsed<StatementModel>
    decreases remaining(tokens, pos as int), 7nat,
{
    match expression_at(tokens, pos, 0) {
        Ok((condition, n)) => {
            let n1 = n + semicolons(tokens, pos + n);
            match branch_at(tokens, pos + n1) {
                Ok((body, m)) => Ok(
                    (StatementModel::While { condition, body: Box::new(body) }, n1 + m),
                ),
                Err(e) => Err(e),
            }
        },
        Err(e) => Err(e),
    }
}

/// The value behind `return` or `end`: none where the statement ends at once.
pub open spec fn value_at(tokens: Seq<TokenModel>, pos: nat) -> Parsed<Option<ExpressionModel>>
    decreases remaining(tokens, pos as int), 7nat,
{
    let t = tok(tokens, pos);
    if t == TokenModel::EndOfInput || t == TokenModel::Operator(';') {
        Ok((None, 0))
    } else {
        match expression_at(tokens, pos, 0) {
            Ok((e, n)) => Ok((Some(e), n)),
            Err(e) => Err(e),
        }
    }
}

/// The variable declaration whose name stands at `pos`.
pub open spec fn declaration_at(tokens: Seq<TokenModel>, pos: nat) -> Parsed<StatementModel>
    decreases remaining(tokens, pos as int), 7nat,
{
    match tok(tokens, pos) {
        TokenModel::Literal(name) => if tok(tokens, pos + 1) == TokenModel::Operator('=') {
            match expression_at(tokens, pos + 2, 0) {
                Ok((e, n)) => Ok(
                    (
                        StatementModel::Let { name, initializer: Some(e) },
                        2 + n + semicolon(tokens, pos + 2 + n),
                    ),
                ),
                Err(e) => Err(e),
            }
        } else {
            Ok((StatementModel::Let { name, initializer: None }, 1 + semicolon(tokens, pos + 1)))
        },
        other => Err(unexpected(other)),
    }
}

/// The constant declaration whose name stands at `pos`.
pub open spec fn constant_at(tokens: Seq<TokenModel>, pos: nat) -> Parsed<StatementModel>
    decreases remaining(tokens, pos as int), 7nat,
{
    match tok(tokens, pos) {
        TokenModel::Literal(name) => if tok(tokens, pos + 1) == TokenModel::Operator('=') {
            match expression_at(tokens, pos + 2, 0) {
                Ok((e, n)) => Ok(
                    (
                        StatementModel::Const { name, initializer: e },
                        2 + n + semicolon(tokens, pos + 2 + n),
                    ),
                ),
                Err(e) => Err(e),
            }
        } else {
            Err(ParseErrorModel::ExpectedOperator("="@))
        },
        other => Err(unexpected(other)),
    }
}

/// The statements from `pos` to the end of the input, behind those in
/// `done`. Semicolons between them are passed over.
pub open spec fn statements_at(
    tokens: Seq<TokenModel>,
    pos: nat,
    done: Seq<StatementModel>,
) -> Result<Seq<StatementModel>, ParseErrorModel>
    decreases remaining(tokens, pos as int),
{
    if tok(tokens, pos) == TokenModel::EndOfInput {
        Ok(done)
    } else {
        match statement_at(tokens, pos) {
            Ok((s, n)) => statements_at(
                tokens,
                pos + step(n) + semicolons(tokens, pos + step(n)),
                done.push(s),
            ),
            Err(e) => Err(e),
        }
    }
}

/// The single expression that makes up the input from `from` on.
pub open spec fn whole_expression(tokens: Seq<TokenModel>, from: nat) -> Result<
    ExpressionModel,
    ParseErrorModel,
> {
    match expression_at(tokens, from, 0) {
        Ok((e, n)) => if tok(tokens, from + n) == TokenModel::EndOfInput {
            Ok(e)
        } else {
            Err(
                ParseErrorModel::UnexpectedToken(
                    "Expected end of input, found "@ + tok(tokens, from + n).description(),
                ),
            )
        },
        Err(e) => Err(e),
    }
}

/// A program: a list of statements or a single expression.
pub enum ProgramModel {
    Statements(Seq<StatementModel>),
    Expression(ExpressionModel),
}

/// The program that the input makes up: the statements from `from` on
/// where they read as one statement or more, else the single expression
/// that the whole input reads as.
pub open spec fn program(tokens: Seq<TokenModel>, from: nat) -> Result<
    ProgramModel,
    ParseErrorModel,
> {
    match statements_at(tokens, from, Seq::empty()) {
        Ok(list) if list.len() > 0 => Ok(ProgramModel::Statements(list)),
        _ => match whole_expression(tokens, 0) {
            Ok(e) => Ok(ProgramModel::Expression(e)),
            Err(e) => Err(e),
        },
    }
}

} // verus!
