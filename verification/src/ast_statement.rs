//! Statements: the syntax tree and the control-flow signals.

use vstd::prelude::*;
use crate::ast_expression::{clone_expressions, expression_models, Expression, ExpressionModel};
use crate::error_types::ParseError;
use crate::grammar::{
    arguments_at, block_at, branch_at, call_at, callable_answer, callable_at, conditional_at,
    constant_at, declaration_at, delivered, end_at, expression_at, function_at, items_at,
    keyword_at, loop_at, names_answer, parameters_at, procedure_at, return_at, semicolon,
    semicolons, shifted, statement_answer, statement_at, value_answer, value_at,
};
use crate::lexical_analyzer::{Token, TokenModel, Tokenizer};
use crate::text::{reads, remaining};

verus! {

/// A statement of the language.
#[derive(Debug)]
#[allow(inconsistent_fields)]
pub enum Statement {
    /// An expression used as a statement.
    Expression(Expression),
    /// A block of statements.
    Block(Vec<Statement>),
    /// A conditional.
    If { condition: Expression, then_branch: Box<Statement>, else_branch: Option<Box<Statement>> },
    /// A loop.
    While { condition: Expression, body: Box<Statement> },
    /// Leaves the innermost loop.
    Break,
    /// Starts the next round of the innermost loop.
    Continue,
    /// Leaves a function or procedure, with an optional value.
    Return(Option<Expression>),
    /// Ends the whole program, with an optional value.
    End(Option<Expression>),
    /// Declares a variable.
    Let { name: String, initializer: Option<Expression> },
    /// Declares a constant.
    Const { name: String, initializer: Expression },
    /// Declares a function.
    Function { name: String, params: Vec<String>, body: Box<Statement> },
    /// Declares a procedure.
    Procedure { name: String, params: Vec<String>, body: Box<Statement> },
    /// Calls a procedure or a function.
    ProcedureCall { name: String, args: Vec<Expression> },
}

/// What a [`Statement`] says, with texts as character sequences.
#[allow(inconsistent_fields)]
pub enum StatementModel {
    Expression(ExpressionModel),
    Block(Seq<StatementModel>),
    If {
        condition: ExpressionModel,
        then_branch: Box<StatementModel>,
        else_branch: Option<Box<StatementModel>>,
    },
    While { condition: ExpressionModel, body: Box<StatementModel> },
    Break,
    Continue,
    Return(Option<ExpressionModel>),
    End(Option<ExpressionModel>),
    Let { name: Seq<char>, initializer: Option<ExpressionModel> },
    Const { name: Seq<char>, initializer: ExpressionModel },
    Function { name: Seq<char>, params: Seq<Seq<char>>, body: Box<StatementModel> },
    Procedure { name: Seq<char>, params: Seq<Seq<char>>, body: Box<StatementModel> },
    ProcedureCall { name: Seq<char>, args: Seq<ExpressionModel> },
}

/// How a statement ended.
#[derive(Debug, Clone, Copy, PartialEq, Eq, Structural)]
pub enum ControlFlow {
    Normal,
    Break,
    Continue,
    Return,
}

/// The character sequences of a list of texts.
pub open spec fn texts(list: Seq<String>) -> Seq<Seq<char>> {
    Seq::new(list.len(), |i: int| list[i]@)
}

/// The model of an optional expression.
pub open spec fn optional_model(e: Option<Expression>) -> Option<ExpressionModel> {
    match e {
        Some(e) => Some(e@),
        None => None,
    }
}

/// The models of a list of statements.
pub open spec fn statement_models(list: Seq<Statement>) -> Seq<StatementModel>
    decreases list,
{
    if list.len() == 0 {
        Seq::empty()
    } else {
        statement_models(list.drop_last()).push(list.last()@)
    }
}

impl View for Statement {
    type V = StatementModel;

    open spec fn view(&self) -> StatementModel
        decreases self,
    {
        match self {
            Statement::Expression(e) => StatementModel::Expression(e@),
            Statement::Block(items) => StatementModel::Block(statement_models(items@)),
            Statement::If { condition, then_branch, else_branch } => (StatementModel::If {
                condition: condition@,
                then_branch: Box::new((**then_branch)@),
                else_branch: match else_branch {
                    Some(b) => Some(Box::new((**b)@)),
                    None => None,
                },
            }),
            Statement::While { condition, body } => (StatementModel::While {
                condition: condition@,
                body: Box::new((**body)@),
            }),
            Statement::Break => StatementModel::Break,
            Statement::Continue => StatementModel::Continue,
            Statement::Return(e) => StatementModel::Return(optional_model(*e)),
            Statement::End(e) => StatementModel::End(optional_model(*e)),
            Statement::Let { name, initializer } => (StatementModel::Let {
                name: name@,
                initializer: optional_model(*initializer),
            }),
            Statement::Const { name, initializer } => (StatementModel::Const {
                name: name@,
                initializer: initializer@,
            }),
            Statement::Function { name, params, body } => (StatementModel::Function {
                name: name@,
                params: texts(params@),
                body: Box::new((**body)@),
            }),
            Statement::Procedure { name, params, body } => (StatementModel::Procedure {
                name: name@,
                params: texts(params@),
                body: Box::new((**body)@),
            }),
            Statement::ProcedureCall { name, args } => (StatementModel::ProcedureCall {
                name: name@,
                args: expression_models(args@),
            }),
        }
    }
}

/// The models of a list that grew by one statement.
pub proof fn lemma_statement_models_push(list: Seq<Statement>, s: Statement)
    ensures
        statement_models(list.push(s)) == statement_models(list).push(s@),
{
    let longer = list.push(s);
    assert(longer.drop_last() =~= list);
    assert(statement_models(longer) == statement_models(longer.drop_last()).push(longer.last()@));
}

/// The models of a list stand in the order of the list.
pub proof fn lemma_statement_models(list: Seq<Statement>)
    ensures
        statement_models(list).len() == list.len(),
        forall|i: int| 0 <= i < list.len() ==> #[trigger] statement_models(list)[i] == list[i]@,
    decreases list.len(),
{
    if list.len() > 0 {
        lemma_statement_models(list.drop_last());
        assert(statement_models(list) == statement_models(list.drop_last()).push(list.last()@));
    }
}

/// The texts of a list that grew by one text.
pub proof fn lemma_texts_push(list: Seq<String>, s: String)
    ensures
        texts(list.push(s)) == texts(list).push(s@),
{
    assert(texts(list.push(s)) =~= texts(list).push(s@));
}

/// A copy of `list`.
pub fn clone_texts(list: &Vec<String>) -> (out: Vec<String>)
    ensures
        texts(out@) == texts(list@),
{
    let mut out: Vec<String> = Vec::new();
    let mut i: usize = 0;
    while i < list.len()
        invariant
            i <= list.len(),
            out.len() == i,
            forall|j: int| 0 <= j < i ==> out@[j]@ == list@[j]@,
        decreases list.len() - i,
    {
        out.push(list[i].clone());
        i += 1;
    }
    assert(texts(out@) =~= texts(list@));
    out
}

fn clone_optional(e: &Option<Expression>) -> (out: Option<Expression>)
    ensures
        optional_model(out) == optional_model(*e),
{
    match e {
        Some(e) => Some(e.clone()),
        None => None,
    }
}

/// A copy of `list`.
pub fn clone_statements(list: &Vec<Statement>) -> (out: Vec<Statement>)
    ensures
        statement_models(out@) == statement_models(list@),
    decreases list,
{
    let mut out: Vec<Statement> = Vec::new();
    let mut i: usize = 0;
    while i < list.len()
        invariant
            i <= list.len(),
            statement_models(out@) == statement_models(list@.take(i as int)),
        decreases list.len() - i,
    {
        let item = list[i].clone();
        proof {
            lemma_statement_models_push(out@, item);
            lemma_statement_models_push(list@.take(i as int), list@[i as int]);
            assert(list@.take(i as int).push(list@[i as int]) =~= list@.take(i + 1));
        }
        out.push(item);
        i += 1;
    }
    assert(list@.take(list.len() as int) =~= list@);
    out
}

impl Clone for Statement {
    fn clone(&self) -> (out: Statement)
        ensures
            out@ == self@,
        decreases self,
    {
        match self {
            Statement::Expression(e) => Statement::Expression(e.clone()),
            Statement::Block(items) => Statement::Block(clone_statements(items)),
            Statement::If { condition, then_branch, else_branch } => Statement::If {
                condition: condition.clone(),
                then_branch: Box::new((**then_branch).clone()),
                else_branch: match else_branch {
                    Some(b) => Some(Box::new((**b).clone())),
                    None => None,
                },
            },
            Statement::While { condition, body } => Statement::While {
                condition: condition.clone(),
                body: Box::new((**body).clone()),
            },
            Statement::Break => Statement::Break,
            Statement::Continue => Statement::Continue,
            Statement::Return(e) => Statement::Return(clone_optional(e)),
            Statement::End(e) => Statement::End(clone_optional(e)),
            Statement::Let { name, initializer } => Statement::Let {
                name: name.clone(),
                initializer: clone_optional(initializer),
            },
            Statement::Const { name, initializer } => Statement::Const {
                name: name.clone(),
                initializer: initializer.clone(),
            },
            Statement::Function { name, params, body } => Statement::Function {
                name: name.clone(),
                params: clone_texts(params),
                body: Box::new((**body).clone()),
            },
            Statement::Procedure { name, params, body } => Statement::Procedure {
                name: name.clone(),
                params: clone_texts(params),
                body: Box::new((**body).clone()),
            },
            Statement::ProcedureCall { name, args } => Statement::ProcedureCall {
                name: name.clone(),
                args: clone_expressions(args),
            },
        }
    }
}

impl StatementModel {
    /// The names that the statement declares with `let` or `const`, in
    /// itself or in the blocks, branches and loop bodies within it.
    pub open spec fn declared(self) -> Set<Seq<char>>
        decreases self,
    {
        match self {
            StatementModel::Let { name, .. } => set![name],
            StatementModel::Const { name, .. } => set![name],
            StatementModel::Block(items) => declared_among(items, items.len()),
            StatementModel::If { then_branch, else_branch, .. } => match else_branch {
                Some(other) => then_branch.declared().union(other.declared()),
                None => then_branch.declared(),
            },
            StatementModel::While { body, .. } => body.declared(),
            _ => Set::empty(),
        }
    }
}

/// The names that the first `count` statements of `items` declare.
pub open spec fn declared_among(items: Seq<StatementModel>, count: nat) -> Set<Seq<char>>
    decreases items, count,
{
    if count == 0 || count > items.len() {
        Set::empty()
    } else {
        declared_among(items, (count - 1) as nat).union(items[count - 1].declared())
    }
}

fn note_name(vars: &mut Vec<String>, name: &String)
    ensures
        texts(final(vars)@).to_set() == texts(old(vars)@).to_set().insert(name@),
{
    proof {
        lemma_texts_push(vars@, *name);
    }
    let ghost before = texts(vars@);
    let copy = name.clone();
    vars.push(copy);
    proof {
        lemma_texts_push(old(vars)@, copy);
        assert(texts(vars@) =~= before.push(name@));
        assert(before.push(name@).to_set() =~= before.to_set().insert(name@)) by {
            assert forall|k: Seq<char>| #[trigger]
                before.push(name@).to_set().contains(k) == before.to_set().insert(
                    name@,
                ).contains(k) by {
                if before.contains(k) {
                    let i = before.index_of(k);
                    assert(before.push(name@)[i] == k);
                }
                if k == name@ {
                    assert(before.push(name@)[before.len() as int] == k);
                }
            }
        }
    }
}

/// Adds to `vars` the names that `stmt` declares with `let` or `const`, in
/// itself or in the blocks, branches and loop bodies within it.
#[verifier::loop_isolation(false)]
pub fn collect_declared_vars(stmt: &Statement, vars: &mut Vec<String>)
    ensures
        texts(final(vars)@).to_set() == texts(old(vars)@).to_set().union(stmt@.declared()),
    decreases stmt,
{
    let ghost start = texts(vars@).to_set();
    match stmt {
        Statement::Let { name, .. } => {
            note_name(vars, name);
            assert(start.insert(name@) =~= start.union(set![name@]));
        },
        Statement::Const { name, .. } => {
            note_name(vars, name);
            assert(start.insert(name@) =~= start.union(set![name@]));
        },
        Statement::Block(items) => {
            let mut i: usize = 0;
            proof {
                lemma_statement_models(items@);
                assert(start =~= start.union(Set::empty()));
            }
            while i < items.len()
                invariant
                    i <= items.len(),
                    texts(vars@).to_set() == start.union(
                        declared_among(statement_models(items@), i as nat),
                    ),
                decreases items.len() - i,
            {
                let ghost so_far = declared_among(statement_models(items@), i as nat);
                collect_declared_vars(&items[i], vars);
                i += 1;
                assert(start.union(so_far).union(items@[i - 1]@.declared()) =~= start.union(
                    so_far.union(items@[i - 1]@.declared()),
                ));
            }
        },
        Statement::If { then_branch, else_branch, .. } => {
            collect_declared_vars(then_branch, vars);
            match else_branch {
                Some(other) => {
                    collect_declared_vars(other, vars);
                    assert(start.union((**then_branch)@.declared()).union((**other)@.declared())
                        =~= start.union(
                        (**then_branch)@.declared().union((**other)@.declared()),
                    ));
                },
                None => {},
            }
        },
        Statement::While { body, .. } => {
            collect_declared_vars(body, vars);
        },
        _ => {
            assert(start =~= start.union(Set::empty()));
        },
    }
}

fn skip_semicolons(tokenizer: &mut Tokenizer)
    requires
        old(tokenizer).wf(),
    ensures
        final(tokenizer).wf(),
        final(tokenizer).tokens() == old(tokenizer).tokens(),
        final(tokenizer).cursor() == old(tokenizer).cursor() + semicolons(
            old(tokenizer).tokens(),
            old(tokenizer).cursor(),
        ),
{
    let ghost tokens = tokenizer.tokens();
    let ghost entry = tokenizer.cursor();
    while tokenizer.peek_token().is_operator(';')
        invariant
            tokenizer.wf(),
            tokenizer.tokens() == tokens,
            tokenizer.cursor() >= entry,
            semicolons(tokens, entry) == (tokenizer.cursor() - entry) + semicolons(
                tokens,
                tokenizer.cursor(),
            ),
        decreases remaining(tokens, tokenizer.cursor() as int),
    {
        tokenizer.next_token();
    }
}

fn skip_semicolon(tokenizer: &mut Tokenizer)
    requires
        old(tokenizer).wf(),
    ensures
        final(tokenizer).wf(),
        final(tokenizer).tokens() == old(tokenizer).tokens(),
        final(tokenizer).cursor() == old(tokenizer).cursor() + semicolon(
            old(tokenizer).tokens(),
            old(tokenizer).cursor(),
        ),
{
    if tokenizer.peek_token().is_operator(';') {
        tokenizer.next_token();
    }
}

fn text(word: &str) -> (out: String)
    ensures
        out@ == word@,
{
    word.to_owned()
}

impl Statement {
    /// Reads the statement under the cursor, with the semicolon that may
    /// close it, and moves the cursor behind it.
    pub fn parse(tokenizer: &mut Tokenizer) -> (out: Result<Statement, ParseError>)
        requires
            old(tokenizer).wf(),
        ensures
            delivered(
                *old(tokenizer),
                *final(tokenizer),
                statement_answer(out),
                statement_at(old(tokenizer).tokens(), old(tokenizer).cursor()),
            ),
            out is Ok ==> final(tokenizer).cursor() > old(tokenizer).cursor(),
        decreases remaining(old(tokenizer).tokens(), old(tokenizer).cursor() as int), 4nat,
    {
        let token = tokenizer.peek_token().clone();
        let body = match token {
            Token::EndOfInput => {
                return Err(ParseError::EmptyInput);
            },
            Token::Keyword(word) => {
                tokenizer.next_token();
                Statement::parse_keyword_statement(tokenizer, word)
            },
            Token::Operator(c) => {
                if c == '{' {
                    Statement::parse_block_statement(tokenizer)
                } else {
                    Statement::parse_expression_statement(tokenizer)
                }
            },
            Token::Literal(name) => {
                if tokenizer.peek_ahead(1).is_operator('(') {
                    tokenizer.next_token();
                    Statement::call_procedure(tokenizer, name)
                } else {
                    Statement::parse_expression_statement(tokenizer)
                }
            },
            Token::AugAssign(_) => Statement::parse_expression_statement(tokenizer),
        };
        match body {
            Ok(s) => {
                skip_semicolon(tokenizer);
                Ok(s)
            },
            Err(e) => Err(e),
        }
    }

    /// Reads the expression under the cursor as a statement.
    fn parse_expression_statement(tokenizer: &mut Tokenizer) -> (out: Result<
        Statement,
        ParseError,
    >)
        requires
            old(tokenizer).wf(),
            !(old(tokenizer).current() is Keyword),
        ensures
            delivered(
                *old(tokenizer),
                *final(tokenizer),
                statement_answer(out),
                match expression_at(old(tokenizer).tokens(), old(tokenizer).cursor(), 0) {
                    Ok((e, n)) => Ok((StatementModel::Expression(e), n)),
                    Err(e) => Err(e),
                },
            ),
            out is Ok ==> final(tokenizer).cursor() > old(tokenizer).cursor(),
        decreases remaining(old(tokenizer).tokens(), old(tokenizer).cursor() as int), 3nat,
    {
        match Expression::parse(tokenizer, 0) {
            Ok(e) => Ok(Statement::Expression(e)),
            Err(e) => Err(e),
        }
    }

    /// Reads the statement that the reserved word `word` begins; the cursor
    /// is behind the word.
    fn parse_keyword_statement(tokenizer: &mut Tokenizer, word: String) -> (out: Result<
        Statement,
        ParseError,
    >)
        requires
            old(tokenizer).wf(),
        ensures
            delivered(
                *old(tokenizer),
                *final(tokenizer),
                statement_answer(out),
                keyword_at(old(tokenizer).tokens(), old(tokenizer).cursor(), word@),
            ),
        decreases remaining(old(tokenizer).tokens(), old(tokenizer).cursor() as int), 9nat,
    {
        if reads(word.as_str(), "if") {
            Statement::parse_if_statement(tokenizer)
        } else if reads(word.as_str(), "while") {
            Statement::parse_while_statement(tokenizer)
        } else if reads(word.as_str(), "break") {
            Ok(Statement::Break)
        } else if reads(word.as_str(), "continue") {
            Ok(Statement::Continue)
        } else if reads(word.as_str(), "return") {
            Statement::parse_return_statement(tokenizer)
        } else if reads(word.as_str(), "let") {
            Statement::parse_let_statement(tokenizer)
        } else if reads(word.as_str(), "const") {
            Statement::parse_const_statement(tokenizer)
        } else if reads(word.as_str(), "end") {
            Statement::parse_end_statement(tokenizer)
        } else if reads(word.as_str(), "fn") {
            Statement::parse_function_statement(tokenizer)
        } else if reads(word.as_str(), "proc") {
            Statement::parse_procedure_statement(tokenizer)
        } else {
            Err(ParseError::UnexpectedToken(word))
        }
    }

    /// Reads the block whose opening brace is under the cursor.
    #[verifier::loop_isolation(false)]
    fn parse_block_statement(tokenizer: &mut Tokenizer) -> (out: Result<Statement, ParseError>)
        requires
            old(tokenizer).wf(),
            old(tokenizer).current() == TokenModel::Operator('{'),
        ensures
            delivered(
                *old(tokenizer),
                *final(tokenizer),
                statement_answer(out),
                block_at(old(tokenizer).tokens(), old(tokenizer).cursor()),
            ),
            out is Ok ==> final(tokenizer).cursor() > old(tokenizer).cursor(),
        decreases remaining(old(tokenizer).tokens(), old(tokenizer).cursor() as int), 3nat,
    {
        let ghost tokens = tokenizer.tokens();
        let ghost entry = tokenizer.cursor();
        tokenizer.next_token();
        let mut statements: Vec<Statement> = Vec::new();
        let mut done = false;
        assert(statement_models(statements@) =~= Seq::empty());
        while !done
            invariant
                tokenizer.wf(),
                tokenizer.tokens() == tokens,
                tokenizer.cursor() >= entry + 1,
                items_at(tokens, entry + 1, Seq::empty()) == (if done {
                    Ok((statement_models(statements@), (tokenizer.cursor() - (entry + 1)) as nat))
                } else {
                    shifted(
                        items_at(tokens, tokenizer.cursor(), statement_models(statements@)),
                        (tokenizer.cursor() - (entry + 1)) as nat,
                    )
                }),
            decreases
                remaining(tokens, tokenizer.cursor() as int),
                (if done {
                    0nat
                } else {
                    1nat
                }),
        {
            if tokenizer.peek_token().is_operator('}') {
                tokenizer.next_token();
                done = true;
            } else if tokenizer.peek_token().is_end() {
                return Err(ParseError::ExpectedBlock);
            } else if tokenizer.peek_token().is_operator(';') {
                tokenizer.next_token();
            } else {
                let statement = match Statement::parse(tokenizer) {
                    Ok(s) => s,
                    Err(e) => {
                        return Err(e);
                    },
                };
                proof {
                    lemma_statement_models_push(statements@, statement);
                }
                statements.push(statement);
            }
        }
        Ok(Statement::Block(statements))
    }

    /// Reads a branch of a conditional or the body of a loop: a block or a
    /// single statement.
    fn parse_branch(tokenizer: &mut Tokenizer) -> (out: Result<Statement, ParseError>)
        requires
            old(tokenizer).wf(),
        ensures
            delivered(
                *old(tokenizer),
                *final(tokenizer),
                statement_answer(out),
                branch_at(old(tokenizer).tokens(), old(tokenizer).cursor()),
            ),
            out is Ok ==> final(tokenizer).cursor() > old(tokenizer).cursor(),
        decreases remaining(old(tokenizer).tokens(), old(tokenizer).cursor() as int), 5nat,
    {
        if tokenizer.peek_token().is_operator('{') {
            Statement::parse_block_statement(tokenizer)
        } else {
            Statement::parse(tokenizer)
        }
    }

    /// Reads the conditional whose condition is under the cursor.
    fn parse_if_statement(tokenizer: &mut Tokenizer) -> (out: Result<Statement, ParseError>)
        requires
            old(tokenizer).wf(),
        ensures
            delivered(
                *old(tokenizer),
                *final(tokenizer),
                statement_answer(out),
                conditional_at(old(tokenizer).tokens(), old(tokenizer).cursor()),
            ),
        decreases remaining(old(tokenizer).tokens(), old(tokenizer).cursor() as int), 7nat,
    {
        let condition = match Expression::parse(tokenizer, 0) {
            Ok(e) => e,
            Err(e) => {
                return Err(e);
            },
        };
        skip_semicolons(tokenizer);
        let then_branch = match Statement::parse_branch(tokenizer) {
            Ok(s) => s,
            Err(e) => {
                return Err(e);
            },
        };
        skip_semicolons(tokenizer);
        if tokenizer.peek_token().is_keyword("else") {
            tokenizer.next_token();
            let other = if tokenizer.peek_token().is_keyword("if") {
                tokenizer.next_token();
                Statement::parse_if_statement(tokenizer)
            } else {
                Statement::parse_branch(tokenizer)
            };
            match other {
                Ok(else_branch) => Ok(
                    Statement::If {
                        condition,
                        then_branch: Box::new(then_branch),
                        else_branch: Some(Box::new(else_branch)),
                    },
                ),
                Err(e) => Err(e),
            }
        } else {
            Ok(Statement::If { condition, then_branch: Box::new(then_branch), else_branch: None })
        }
    }

    /// Reads the loop whose condition is under the cursor.
    fn parse_while_statement(tokenizer: &mut Tokenizer) -> (out: Result<Statement, ParseError>)
        requires
            old(tokenizer).wf(),
        ensures
            delivered(
                *old(tokenizer),
                *final(tokenizer),
                statement_answer(out),
                loop_at(old(tokenizer).tokens(), old(tokenizer).cursor()),
            ),
        decreases remaining(old(tokenizer).tokens(), old(tokenizer).cursor() as int), 7nat,
    {
        let condition = match Expression::parse(tokenizer, 0) {
            Ok(e) => e,
            Err(e) => {
                return Err(e);
            },
        };
        skip_semicolons(tokenizer);
        match Statement::parse_branch(tokenizer) {
            Ok(body) => Ok(Statement::While { condition, body: Box::new(body) }),
            Err(e) => Err(e),
        }
    }

    /// Reads the value behind `return` or `end`, if there is one.
    fn parse_value(tokenizer: &mut Tokenizer) -> (out: Result<Option<Expression>, ParseError>)
        requires
            old(tokenizer).wf(),
        ensures
            delivered(
                *old(tokenizer),
                *final(tokenizer),
                value_answer(out),
                value_at(old(tokenizer).tokens(), old(tokenizer).cursor()),
            ),
        decreases remaining(old(tokenizer).tokens(), old(tokenizer).cursor() as int), 7nat,
    {
        if tokenizer.peek_token().is_end() || tokenizer.peek_token().is_operator(';') {
            Ok(None)
        } else {
            match Expression::parse(tokenizer, 0) {
                Ok(e) => Ok(Some(e)),
                Err(e) => Err(e),
            }
        }
    }

    /// Reads the rest of a `return` statement.
    fn parse_return_statement(tokenizer: &mut Tokenizer) -> (out: Result<Statement, ParseError>)
        requires
            old(tokenizer).wf(),
        ensures
            delivered(
                *old(tokenizer),
                *final(tokenizer),
                statement_answer(out),
                return_at(old(tokenizer).tokens(), old(tokenizer).cursor()),
            ),
        decreases remaining(old(tokenizer).tokens(), old(tokenizer).cursor() as int), 8nat,
    {
        match Statement::parse_value(tokenizer) {
            Ok(value) => Ok(Statement::Return(value)),
            Err(e) => Err(e),
        }
    }

    /// Reads the rest of an `end` statement.
    fn parse_end_statement(tokenizer: &mut Tokenizer) -> (out: Result<Statement, ParseError>)
        requires
            old(tokenizer).wf(),
        ensures
            delivered(
                *old(tokenizer),
                *final(tokenizer),
                statement_answer(out),
                end_at(old(tokenizer).tokens(), old(tokenizer).cursor()),
            ),
        decreases remaining(old(tokenizer).tokens(), old(tokenizer).cursor() as int), 8nat,
    {
        match Statement::parse_value(tokenizer) {
            Ok(value) => Ok(Statement::End(value)),
            Err(e) => Err(e),
        }
    }

    /// Reads the variable declaration whose name is under the cursor.
    fn parse_let_statement(tokenizer: &mut Tokenizer) -> (out: Result<Statement, ParseError>)
        requires
            old(tokenizer).wf(),
        ensures
            delivered(
                *old(tokenizer),
                *final(tokenizer),
                statement_answer(out),
                declaration_at(old(tokenizer).tokens(), old(tokenizer).cursor()),
            ),
        decreases remaining(old(tokenizer).tokens(), old(tokenizer).cursor() as int), 7nat,
    {
        let name = match tokenizer.next_token() {
            Token::Literal(name) => name,
            token => {
                return Err(ParseError::UnexpectedToken(token.describe()));
            },
        };
        let initializer = if tokenizer.peek_token().is_operator('=') {
            tokenizer.next_token();
            match Expression::parse(tokenizer, 0) {
                Ok(e) => Some(e),
                Err(e) => {
                    return Err(e);
                },
            }
        } else {
            None
        };
        skip_semicolon(tokenizer);
        Ok(Statement::Let { name, initializer })
    }

    /// Reads the constant declaration whose name is under the cursor.
    fn parse_const_statement(tokenizer: &mut Tokenizer) -> (out: Result<Statement, ParseError>)
        requires
            old(tokenizer).wf(),
        ensures
            delivered(
                *old(tokenizer),
                *final(tokenizer),
                statement_answer(out),
                constant_at(old(tokenizer).tokens(), old(tokenizer).cursor()),
            ),
        decreases remaining(old(tokenizer).tokens(), old(tokenizer).cursor() as int), 7nat,
    {
        let name = match tokenizer.next_token() {
            Token::Literal(name) => name,
            token => {
                return Err(ParseError::UnexpectedToken(token.describe()));
            },
        };
        if !tokenizer.peek_token().is_operator('=') {
            return Err(ParseError::ExpectedOperator(text("=")));
        }
        tokenizer.next_token();
        let initializer = match Expression::parse(tokenizer, 0) {
            Ok(e) => e,
            Err(e) => {
                return Err(e);
            },
        };
        skip_semicolon(tokenizer);
        Ok(Statement::Const { name, initializer })
    }

    /// Reads the parameter names under the cursor and the parenthesis that
    /// closes them.
    #[verifier::loop_isolation(false)]
    fn parse_parameters(tokenizer: &mut Tokenizer) -> (out: Result<Vec<String>, ParseError>)
        requires
            old(tokenizer).wf(),
        ensures
            delivered(
                *old(tokenizer),
                *final(tokenizer),
                names_answer(out),
                parameters_at(old(tokenizer).tokens(), old(tokenizer).cursor(), Seq::empty()),
            ),
    {
        let ghost tokens = tokenizer.tokens();
        let ghost entry = tokenizer.cursor();
        let mut params: Vec<String> = Vec::new();
        let mut done = false;
        assert(texts(params@) =~= Seq::empty());
        while !done
            invariant
                tokenizer.wf(),
                tokenizer.tokens() == tokens,
                tokenizer.cursor() >= entry,
                parameters_at(tokens, entry, Seq::empty()) == (if done {
                    Ok((texts(params@), (tokenizer.cursor() - entry) as nat))
                } else {
                    shifted(
                        parameters_at(tokens, tokenizer.cursor(), texts(params@)),
                        (tokenizer.cursor() - entry) as nat,
                    )
                }),
            decreases
                remaining(tokens, tokenizer.cursor() as int),
                (if done {
                    0nat
                } else {
                    1nat
                }),
        {
            match tokenizer.next_token() {
                Token::Literal(name) => {
                    proof {
                        lemma_texts_push(params@, name);
                    }
                    params.push(name);
                },
                token => {
                    return Err(
                        ParseError::Expected {
                            expected: text("parameter name"),
                            found: token.describe(),
                        },
                    );
                },
            }
            let token = tokenizer.next_token();
            if token.is_operator(',') {
            } else if token.is_operator(')') {
                done = true;
            } else {
                return Err(
                    ParseError::Expected {
                        expected: text("comma ',' or closing parenthesis ')'"),
                        found: token.describe(),
                    },
                );
            }
        }
        Ok(params)
    }

    /// Reads name, parameters and body of a function or procedure
    /// declaration; the name is under the cursor.
    fn parse_callable(tokenizer: &mut Tokenizer, name_text: &str, body_text: &str) -> (out: Result<
        (String, Vec<String>, Statement),
        ParseError,
    >)
        requires
            old(tokenizer).wf(),
        ensures
            delivered(
                *old(tokenizer),
                *final(tokenizer),
                callable_answer(out),
                callable_at(
                    old(tokenizer).tokens(),
                    old(tokenizer).cursor(),
                    name_text@,
                    body_text@,
                ),
            ),
        decreases remaining(old(tokenizer).tokens(), old(tokenizer).cursor() as int), 7nat,
    {
        let name = match tokenizer.next_token() {
            Token::Literal(name) => name,
            token => {
                return Err(
                    ParseError::Expected { expected: text(name_text), found: token.describe() },
                );
            },
        };
        let token = tokenizer.next_token();
        if !token.is_operator('(') {
            return Err(
                ParseError::Expected {
                    expected: text("opening parenthesis '('"),
                    found: token.describe(),
                },
            );
        }
        let params = if tokenizer.peek_token().is_operator(')') {
            tokenizer.next_token();
            let params: Vec<String> = Vec::new();
            assert(texts(params@) =~= Seq::empty());
            params
        } else {
            match Statement::parse_parameters(tokenizer) {
                Ok(params) => params,
                Err(e) => {
                    return Err(e);
                },
            }
        };
        if tokenizer.peek_token().is_operator('{') {
            match Statement::parse_block_statement(tokenizer) {
                Ok(body) => Ok((name, params, body)),
                Err(e) => Err(e),
            }
        } else {
            Err(
                ParseError::Expected {
                    expected: text(body_text),
                    found: tokenizer.peek_token().describe(),
                },
            )
        }
    }

    /// Reads the function declaration whose name is under the cursor.
    fn parse_function_statement(tokenizer: &mut Tokenizer) -> (out: Result<Statement, ParseError>)
        requires
            old(tokenizer).wf(),
        ensures
            delivered(
                *old(tokenizer),
                *final(tokenizer),
                statement_answer(out),
                function_at(old(tokenizer).tokens(), old(tokenizer).cursor()),
            ),
        decreases remaining(old(tokenizer).tokens(), old(tokenizer).cursor() as int), 8nat,
    {
        match Statement::parse_callable(tokenizer, "function name", "function body block") {
            Ok((name, params, body)) => Ok(
                Statement::Function { name, params, body: Box::new(body) },
            ),
            Err(e) => Err(e),
        }
    }

    /// Reads the procedure declaration whose name is under the cursor.
    fn parse_procedure_statement(tokenizer: &mut Tokenizer) -> (out: Result<Statement, ParseError>)
        requires
            old(tokenizer).wf(),
        ensures
            delivered(
                *old(tokenizer),
                *final(tokenizer),
                statement_answer(out),
                procedure_at(old(tokenizer).tokens(), old(tokenizer).cursor()),
            ),
        decreases remaining(old(tokenizer).tokens(), old(tokenizer).cursor() as int), 8nat,
    {
        match Statement::parse_callable(tokenizer, "procedure name", "procedure body block") {
            Ok((name, params, body)) => Ok(
                Statement::Procedure { name, params, body: Box::new(body) },
            ),
            Err(e) => Err(e),
        }
    }

    /// Reads the call of `name` whose opening parenthesis is under the cursor.
    #[verifier::loop_isolation(false)]
    fn call_procedure(tokenizer: &mut Tokenizer, name: String) -> (out: Result<
        Statement,
        ParseError,
    >)
        requires
            old(tokenizer).wf(),
            old(tokenizer).current() == TokenModel::Operator('('),
        ensures
            delivered(
                *old(tokenizer),
                *final(tokenizer),
                statement_answer(out),
                call_at(old(tokenizer).tokens(), old(tokenizer).cursor(), name@),
            ),
        decreases remaining(old(tokenizer).tokens(), old(tokenizer).cursor() as int), 8nat,
    {
        let ghost tokens = tokenizer.tokens();
        let ghost entry = tokenizer.cursor();
        tokenizer.next_token();
        let mut args: Vec<Expression> = Vec::new();
        assert(expression_models(args@) =~= Seq::empty());
        if tokenizer.peek_token().is_operator(')') {
            tokenizer.next_token();
            return Ok(Statement::ProcedureCall { name, args });
        }
        let mut done = false;
        while !done
            invariant
                tokenizer.wf(),
                tokenizer.tokens() == tokens,
                tokenizer.cursor() >= entry + 1,
                arguments_at(tokens, entry + 1, Seq::empty()) == (if done {
                    Ok((expression_models(args@), (tokenizer.cursor() - (entry + 1)) as nat))
                } else {
                    shifted(
                        arguments_at(tokens, tokenizer.cursor(), expression_models(args@)),
                        (tokenizer.cursor() - (entry + 1)) as nat,
                    )
                }),
            decreases
                remaining(tokens, tokenizer.cursor() as int),
                (if done {
                    0nat
                } else {
                    1nat
                }),
        {
            let ghost earlier = expression_models(args@);
            let e = match Expression::parse(tokenizer, 0) {
                Ok(e) => e,
                Err(e) => {
                    return Err(e);
                },
            };
            args.push(e);
            assert(expression_models(args@) =~= earlier.push(e@));
            let token = tokenizer.next_token();
            if token.is_operator(',') {
            } else if token.is_operator(')') {
                done = true;
            } else {
                return Err(
                    ParseError::Expected {
                        expected: text("comma ',' or closing parenthesis ')'"),
                        found: token.describe(),
                    },
                );
            }
        }
        Ok(Statement::ProcedureCall { name, args })
    }
}

} // verus!
