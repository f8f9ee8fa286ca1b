//! Expressions: the syntax tree, its prefix notation and the operator table.

use vstd::prelude::*;
use vstd::string::StrSliceExecFns;
use crate::ast_statement::Statement;
use crate::error_types::ParseError;
use crate::grammar::{
    delivered, expression_answer, expression_at, expression_order, infix_from, infix_power,
    listed_answer, listed_at, operand_at, operand_order, prefix_power, shifted,
};
use crate::lexical_analyzer::{Token, Tokenizer};
use crate::text::{push_text, remaining};

verus! {

/// A node of an expression tree.
#[derive(Debug)]
pub enum Expression {
    /// A number or an identifier, as written; what it stands for is
    /// decided when it is evaluated.
    Literal(String),
    /// An operator with one operand (prefix) or two (infix).
    Operation(char, Vec<Expression>),
    /// A call of the named function.
    FunctionCall(String, Vec<Expression>),
}

/// What an [`Expression`] says, with texts as character sequences.
pub enum ExpressionModel {
    Literal(Seq<char>),
    Operation(char, Seq<ExpressionModel>),
    FunctionCall(Seq<char>, Seq<ExpressionModel>),
}

/// The models of a list of expressions.
pub open spec fn expression_models(list: Seq<Expression>) -> Seq<ExpressionModel>
    decreases list,
{
    Seq::new(
        list.len(),
        |i: int|
            if 0 <= i < list.len() {
                list[i]@
            } else {
                ExpressionModel::Literal(Seq::empty())
            },
    )
}

impl View for Expression {
    type V = ExpressionModel;

    open spec fn view(&self) -> ExpressionModel
        decreases self,
    {
        match self {
            Expression::Literal(text) => ExpressionModel::Literal(text@),
            Expression::Operation(op, operands) => ExpressionModel::Operation(
                *op,
                expression_models(operands@),
            ),
            Expression::FunctionCall(name, args) => ExpressionModel::FunctionCall(
                name@,
                expression_models(args@),
            ),
        }
    }
}

/// The models of a list stand in the order of the list.
pub proof fn lemma_expression_models(list: Seq<Expression>)
    ensures
        expression_models(list).len() == list.len(),
        forall|i: int| 0 <= i < list.len() ==> #[trigger] expression_models(list)[i] == list[i]@,
{
}

/// The models of a list that grew by one expression.
pub proof fn lemma_expression_models_push(list: Seq<Expression>, e: Expression)
    ensures
        expression_models(list.push(e)) == expression_models(list).push(e@),
{
    assert(expression_models(list.push(e)) =~= expression_models(list).push(e@));
}

/// A copy of `list`.
pub fn clone_expressions(list: &Vec<Expression>) -> (out: Vec<Expression>)
    ensures
        expression_models(out@) == expression_models(list@),
    decreases list,
{
    let mut out: Vec<Expression> = Vec::new();
    let mut i: usize = 0;
    while i < list.len()
        invariant
            i <= list.len(),
            out.len() == i,
            forall|j: int| 0 <= j < i ==> out@[j]@ == list@[j]@,
        decreases list.len() - i,
    {
        out.push(list[i].clone());
        i += 1;
    }
    assert(expression_models(out@) =~= expression_models(list@));
    out
}

impl Clone for Expression {
    fn clone(&self) -> (out: Expression)
        ensures
            out@ == self@,
        decreases self,
    {
        match self {
            Expression::Literal(text) => Expression::Literal(text.clone()),
            Expression::Operation(op, operands) => Expression::Operation(
                *op,
                clone_expressions(operands),
            ),
            Expression::FunctionCall(name, args) => Expression::FunctionCall(
                name.clone(),
                clone_expressions(args),
            ),
        }
    }
}

impl ExpressionModel {
    /// Name and new value of an assignment: of an operation `=` with two
    /// operands whose first is a literal.
    pub open spec fn assignment(self) -> Option<(Seq<char>, ExpressionModel)> {
        match self {
            ExpressionModel::Operation(op, operands) => if op == '=' && operands.len() == 2 {
                match operands[0] {
                    ExpressionModel::Literal(name) => Some((name, operands[1])),
                    _ => None,
                }
            } else {
                None
            },
            _ => None,
        }
    }

    /// The expression in prefix notation: a literal as written, an
    /// operation as `(op a b)`, a call as `name(a, b)`.
    pub open spec fn text(self) -> Seq<char>
        decreases self,
    {
        match self {
            ExpressionModel::Literal(text) => text,
            ExpressionModel::Operation(op, operands) => seq!['(', op] + operands_text(
                operands,
                operands.len(),
            ) + seq![')'],
            ExpressionModel::FunctionCall(name, args) => name + seq!['('] + arguments_text(
                args,
                args.len(),
            ) + seq![')'],
        }
    }
}

/// The first `count` operands, each behind a blank.
pub open spec fn operands_text(operands: Seq<ExpressionModel>, count: nat) -> Seq<char>
    decreases operands, count,
{
    if count == 0 || count > operands.len() {
        Seq::empty()
    } else {
        operands_text(operands, (count - 1) as nat) + seq![' '] + operands[count - 1].text()
    }
}

/// The first `count` arguments, with `, ` between them.
pub open spec fn arguments_text(args: Seq<ExpressionModel>, count: nat) -> Seq<char>
    decreases args, count,
{
    if count == 0 || count > args.len() {
        Seq::empty()
    } else if count == 1 {
        args[0].text()
    } else {
        arguments_text(args, (count - 1) as nat) + seq![',', ' '] + args[count - 1].text()
    }
}

/// Binding powers of the infix operator `op`, in tenths: how strongly it
/// holds its left and its right operand, and whether it groups to the left.
pub fn infix_binding_power(op: char) -> (out: Option<(u32, u32, bool)>)
    ensures
        match out {
            Some((left, right, groups_left)) => infix_power(op) == Some(
                (left as nat, right as nat, groups_left),
            ),
            None => infix_power(op) is None,
        },
{
    if op == '=' {
        Some((2, 1, false))
    } else if op == '&' || op == '|' || op == 'x' || op == 'q' || op == 'a' || op == 'o' {
        Some((3, 4, true))
    } else if op == '<' || op == '>' || op == 'g' || op == 'l' || op == 'e' || op == 'n' {
        Some((5, 6, true))
    } else if op == '+' || op == '-' {
        Some((10, 11, true))
    } else if op == '*' || op == '/' || op == '%' {
        Some((20, 21, true))
    } else if op == '.' {
        Some((50, 51, true))
    } else if op == '^' || op == '√' {
        Some((40, 39, false))
    } else {
        None
    }
}

/// Binding power of the prefix operator `op`, in tenths.
pub fn prefix_binding_power(op: char) -> (out: Option<u32>)
    ensures
        match out {
            Some(power) => prefix_power(op) == Some(power as nat),
            None => prefix_power(op) is None,
        },
{
    if op == '-' || op == '+' || op == '!' || op == '√' {
        Some(200)
    } else {
        None
    }
}

fn operation(op: char, first: Expression, second: Option<Expression>) -> (out: Expression)
    ensures
        out@ == ExpressionModel::Operation(
            op,
            match second {
                Some(e) => seq![first@, e@],
                None => seq![first@],
            },
        ),
{
    let mut operands: Vec<Expression> = Vec::new();
    operands.push(first);
    match second {
        Some(e) => {
            operands.push(e);
        },
        None => {},
    }
    let out = Expression::Operation(op, operands);
    assert(expression_models(operands@) =~= match second {
        Some(e) => seq![first@, e@],
        None => seq![first@],
    });
    out
}

fn begins_second_operand(token: &Token) -> (out: bool)
    ensures
        out == crate::grammar::begins_operand(token@),
{
    match token {
        Token::Literal(_) => true,
        Token::Operator(c) => *c == '(' || *c == '√',
        _ => false,
    }
}

impl Expression {
    /// Reads the expression under the cursor whose operators all hold more
    /// strongly than `min_bp` (in tenths), and moves the cursor behind it.
    #[verifier::loop_isolation(false)]
    pub fn parse(tokenizer: &mut Tokenizer, min_bp: u32) -> (out: Result<Expression, ParseError>)
        requires
            old(tokenizer).wf(),
        ensures
            delivered(
                *old(tokenizer),
                *final(tokenizer),
                expression_answer(out),
                expression_at(old(tokenizer).tokens(), old(tokenizer).cursor(), min_bp as nat),
            ),
            out is Ok ==> final(tokenizer).cursor() > old(tokenizer).cursor(),
        decreases
            remaining(old(tokenizer).tokens(), old(tokenizer).cursor() as int),
            expression_order(old(tokenizer).tokens(), old(tokenizer).cursor()),
    {
        let ghost tokens = tokenizer.tokens();
        let ghost entry = tokenizer.cursor();
        let mut lhs = match Expression::parse_operand(tokenizer) {
            Ok(e) => e,
            Err(e) => {
                return Err(e);
            },
        };
        let mut done = false;
        while !done
            invariant
                tokenizer.wf(),
                tokenizer.tokens() == tokens,
                tokenizer.cursor() > entry,
                expression_at(tokens, entry, min_bp as nat) == (if done {
                    Ok((lhs@, (tokenizer.cursor() - entry) as nat))
                } else {
                    shifted(
                        infix_from(tokens, tokenizer.cursor(), min_bp as nat, lhs@),
                        (tokenizer.cursor() - entry) as nat,
                    )
                }),
            decreases
                remaining(tokens, tokenizer.cursor() as int),
                (if done {
                    0nat
                } else {
                    1nat
                }),
        {
            let token = tokenizer.peek_token().clone();
            match token {
                Token::Operator(op) => {
                    let power = if op == ')' || op == ',' || op == ';' {
                        None
                    } else {
                        infix_binding_power(op)
                    };
                    match power {
                        Some((left, right, groups_left)) => {
                            if (groups_left && left < min_bp) || (!groups_left && left <= min_bp) {
                                done = true;
                            } else {
                                tokenizer.next_token();
                                let rhs = match Expression::parse(tokenizer, right) {
                                    Ok(e) => e,
                                    Err(e) => {
                                        return Err(e);
                                    },
                                };
                                lhs = operation(op, lhs, Some(rhs));
                            }
                        },
                        None => {
                            done = true;
                        },
                    }
                },
                Token::AugAssign(text) => {
                    if text.as_str().unicode_len() == 0 {
                        return Err(ParseError::UnexpectedToken(tokenizer.peek_token().describe()));
                    }
                    let base = text.as_str().get_char(0);
                    tokenizer.next_token();
                    let rhs = match Expression::parse(tokenizer, 0) {
                        Ok(e) => e,
                        Err(e) => {
                            return Err(e);
                        },
                    };
                    let target = lhs.clone();
                    lhs = operation('=', target, Some(operation(base, lhs, Some(rhs))));
                },
                _ => {
                    done = true;
                },
            }
        }
        Ok(lhs)
    }

    /// Reads the operand under the cursor: a group in parentheses, a prefix
    /// operation, a call, or a literal.
    fn parse_operand(tokenizer: &mut Tokenizer) -> (out: Result<Expression, ParseError>)
        requires
            old(tokenizer).wf(),
        ensures
            delivered(
                *old(tokenizer),
                *final(tokenizer),
                expression_answer(out),
                operand_at(old(tokenizer).tokens(), old(tokenizer).cursor()),
            ),
            out is Ok ==> final(tokenizer).cursor() > old(tokenizer).cursor(),
        decreases
            remaining(old(tokenizer).tokens(), old(tokenizer).cursor() as int),
            operand_order(old(tokenizer).tokens(), old(tokenizer).cursor()),
    {
        let ghost tokens = tokenizer.tokens();
        let ghost entry = tokenizer.cursor();
        let token = tokenizer.peek_token().clone();
        match token {
            Token::Keyword(_) => {
                match Statement::parse(tokenizer) {
                    Ok(Statement::Expression(e)) => Ok(e),
                    Ok(_) => Err(ParseError::UnexpectedToken(tokenizer.peek_token().describe())),
                    Err(e) => Err(e),
                }
            },
            Token::Operator(c) => {
                if c == '(' {
                    tokenizer.next_token();
                    let e = match Expression::parse(tokenizer, 0) {
                        Ok(e) => e,
                        Err(e) => {
                            return Err(e);
                        },
                    };
                    let closing = tokenizer.next_token();
                    if closing.is_operator(')') {
                        Ok(e)
                    } else {
                        Err(ParseError::UnmatchedParenthesis)
                    }
                } else {
                    match prefix_binding_power(c) {
                        Some(power) => {
                            tokenizer.next_token();
                            let first = match Expression::parse(tokenizer, power) {
                                Ok(e) => e,
                                Err(e) => {
                                    return Err(e);
                                },
                            };
                            if c == '√' && begins_second_operand(tokenizer.peek_token()) {
                                let second = match Expression::parse(tokenizer, power) {
                                    Ok(e) => e,
                                    Err(e) => {
                                        return Err(e);
                                    },
                                };
                                Ok(operation(c, first, Some(second)))
                            } else {
                                Ok(operation(c, first, None))
                            }
                        },
                        None => Err(ParseError::UnexpectedToken(token.describe())),
                    }
                }
            },
            Token::Literal(text) => {
                tokenizer.next_token();
                if tokenizer.peek_token().is_operator('(') {
                    tokenizer.next_token();
                    let args = if tokenizer.peek_token().is_operator(')') {
                        Vec::new()
                    } else {
                        match Expression::parse_listed(tokenizer) {
                            Ok(args) => args,
                            Err(e) => {
                                return Err(e);
                            },
                        }
                    };
                    assert(args@.len() == 0 ==> expression_models(args@) =~= Seq::empty());
                    if !tokenizer.peek_token().is_operator(')') {
                        return Err(ParseError::UnmatchedParenthesis);
                    }
                    tokenizer.next_token();
                    Ok(Expression::FunctionCall(text, args))
                } else {
                    Ok(Expression::Literal(text))
                }
            },
            other => Err(ParseError::UnexpectedToken(other.describe())),
        }
    }

    /// Name and new value of the expression where it is an assignment: an
    /// operation `=` with two operands whose first is a literal.
    pub fn is_assignment(&self) -> (out: Option<(String, Expression)>)
        ensures
            match out {
                Some((name, rhs)) => self@.assignment() == Some((name@, rhs@)),
                None => self@.assignment() is None,
            },
    {
        match self {
            Expression::Operation(op, operands) => {
                proof {
                    lemma_expression_models(operands@);
                }
                if *op == '=' && operands.len() == 2 {
                    match &operands[0] {
                        Expression::Literal(name) => Some((name.clone(), operands[1].clone())),
                        _ => None,
                    }
                } else {
                    None
                }
            },
            _ => None,
        }
    }

    /// Reads the expressions under the cursor that commas separate.
    #[verifier::loop_isolation(false)]
    fn parse_listed(tokenizer: &mut Tokenizer) -> (out: Result<Vec<Expression>, ParseError>)
        requires
            old(tokenizer).wf(),
        ensures
            delivered(
                *old(tokenizer),
                *final(tokenizer),
                listed_answer(out),
                listed_at(old(tokenizer).tokens(), old(tokenizer).cursor(), Seq::empty()),
            ),
        decreases remaining(old(tokenizer).tokens(), old(tokenizer).cursor() as int), 7nat,
    {
        let ghost tokens = tokenizer.tokens();
        let ghost entry = tokenizer.cursor();
        let mut args: Vec<Expression> = Vec::new();
        let mut done = false;
        assert(expression_models(args@) =~= Seq::empty());
        while !done
            invariant
                tokenizer.wf(),
                tokenizer.tokens() == tokens,
                tokenizer.cursor() >= entry,
                listed_at(tokens, entry, Seq::empty()) == (if done {
                    Ok((expression_models(args@), (tokenizer.cursor() - entry) as nat))
                } else {
                    shifted(
                        listed_at(tokens, tokenizer.cursor(), expression_models(args@)),
                        (tokenizer.cursor() - entry) as nat,
                    )
                }),
            decreases
                remaining(tokens, tokenizer.cursor() as int),
                (if done {
                    0nat
                } else {
                    1nat
                }),
        {
            let ghost earlier = expression_models(args@);
            let e = match Expression::parse(tokenizer, 0) {
                Ok(e) => e,
                Err(e) => {
                    return Err(e);
                },
            };
            args.push(e);
            assert(expression_models(args@) =~= earlier.push(e@));
            if tokenizer.peek_token().is_operator(',') {
                tokenizer.next_token();
            } else {
                done = true;
            }
        }
        Ok(args)
    }

    /// The expression in prefix notation.
    #[verifier::loop_isolation(false)]
    pub fn to_string(&self) -> (out: String)
        ensures
            out@ == self@.text(),
        decreases self,
    {
        match self {
            Expression::Literal(text) => text.clone(),
            Expression::Operation(op, operands) => {
                let mut out = String::new();
                out.push('(');
                out.push(*op);
                let mut i: usize = 0;
                while i < operands.len()
                    invariant
                        i <= operands.len(),
                        out@ == seq!['(', *op] + operands_text(
                            expression_models(operands@),
                            i as nat,
                        ),
                    decreases operands.len() - i,
                {
                    let part = operands[i].to_string();
                    out.push(' ');
                    push_text(&mut out, part.as_str());
                    i += 1;
                    assert(out@ =~= seq!['(', *op] + operands_text(
                        expression_models(operands@),
                        i as nat,
                    ));
                }
                out.push(')');
                out
            },
            Expression::FunctionCall(name, args) => {
                let mut out = name.clone();
                out.push('(');
                let mut i: usize = 0;
                while i < args.len()
                    invariant
                        i <= args.len(),
                        out@ == name@ + seq!['('] + arguments_text(
                            expression_models(args@),
                            i as nat,
                        ),
                    decreases args.len() - i,
                {
                    if i > 0 {
                        out.push(',');
                        out.push(' ');
                    }
                    let part = args[i].to_string();
                    push_text(&mut out, part.as_str());
                    i += 1;
                    assert(out@ =~= name@ + seq!['('] + arguments_text(
                        expression_models(args@),
                        i as nat,
                    ));
                }
                out.push(')');
                out
            },
        }
    }
}

} // verus!
