//! The parser: from tokens, or from text, to a program.

use vstd::prelude::*;
use crate::ast_expression::{
    expression_models, lemma_expression_models_push, Expression, ExpressionModel,
};
use crate::ast_statement::{
    lemma_statement_models_push, statement_models, Statement, StatementModel,
};
use crate::error_types::{ParseError, ParseErrorModel};
use crate::grammar::{
    expression_answer, items_answer, program, statement_answer, statement_at,
    statements_at, whole_expression, ProgramModel,
};
use crate::lexical_analyzer::{lex, TokenModel, Tokenizer};
use crate::text::{chars_of, is_whitespace, push_text, remaining, whitespace};

verus! {

/// A parser over the tokens of one input.
pub struct Parser {
    tokenizer: Tokenizer,
}

/// What a parsed input is.
pub enum ParsedProgram {
    /// The statements of a script.
    Statements(Vec<Statement>),
    /// A single expression.
    Expression(Expression),
}

impl View for ParsedProgram {
    type V = ProgramModel;

    open spec fn view(&self) -> ProgramModel {
        match self {
            ParsedProgram::Statements(list) => ProgramModel::Statements(statement_models(list@)),
            ParsedProgram::Expression(e) => ProgramModel::Expression(e@),
        }
    }
}

/// The model of a parser's answer.
pub open spec fn program_answer(out: Result<ParsedProgram, ParseError>) -> Result<
    ProgramModel,
    ParseErrorModel,
> {
    match out {
        Ok(p) => Ok(p@),
        Err(e) => Err(e@),
    }
}

impl Parser {
    /// The models of the tokens that the parser reads.
    pub closed spec fn tokens(&self) -> Seq<TokenModel> {
        self.tokenizer.tokens()
    }

    /// Index of the next token to read.
    pub closed spec fn cursor(&self) -> nat {
        self.tokenizer.cursor()
    }

    /// The parser's tokenizer is well formed.
    pub closed spec fn wf(&self) -> bool {
        self.tokenizer.wf()
    }

    /// A parser that reads from `tokenizer`.
    pub fn new(tokenizer: Tokenizer) -> (out: Parser)
        ensures
            out.tokens() == tokenizer.tokens(),
            out.cursor() == tokenizer.cursor(),
            out.wf() == tokenizer.wf(),
    {
        Parser { tokenizer }
    }

    /// Reads the rest of the input as one expression.
    pub fn parse_expression(&mut self) -> (out: Result<Expression, ParseError>)
        requires
            old(self).wf(),
        ensures
            final(self).wf(),
            final(self).tokens() == old(self).tokens(),
            expression_answer(out) == whole_expression(old(self).tokens(), old(self).cursor()),
    {
        let e = match Expression::parse(&mut self.tokenizer, 0) {
            Ok(e) => e,
            Err(e) => {
                return Err(e);
            },
        };
        if self.tokenizer.peek_token().is_end() {
            Ok(e)
        } else {
            let mut message = String::new();
            push_text(&mut message, "Expected end of input, found ");
            let found = self.tokenizer.peek_token().describe();
            push_text(&mut message, found.as_str());
            Err(ParseError::UnexpectedToken(message))
        }
    }

    /// Reads the rest of the input as statements.
    #[verifier::loop_isolation(false)]
    pub fn parse_statements(&mut self) -> (out: Result<Vec<Statement>, ParseError>)
        requires
            old(self).wf(),
        ensures
            final(self).wf(),
            final(self).tokens() == old(self).tokens(),
            items_answer(out) == statements_at(
                old(self).tokens(),
                old(self).cursor(),
                Seq::empty(),
            ),
    {
        let ghost tokens = self.tokenizer.tokens();
        let ghost entry = self.tokenizer.cursor();
        let mut statements: Vec<Statement> = Vec::new();
        while !self.tokenizer.peek_token().is_end()
            invariant
                self.tokenizer.wf(),
                self.tokenizer.tokens() == tokens,
                statements_at(tokens, entry, Seq::empty()) == statements_at(
                    tokens,
                    self.tokenizer.cursor(),
                    statement_models(statements@),
                ),
            decreases remaining(tokens, self.tokenizer.cursor() as int),
        {
            let ghost before = self.tokenizer.cursor();
            let statement = match Statement::parse(&mut self.tokenizer) {
                Ok(s) => s,
                Err(e) => {
                    return Err(e);
                },
            };
            proof {
                lemma_statement_models_push(statements@, statement);
            }
            statements.push(statement);
            while self.tokenizer.peek_token().is_operator(';')
                invariant
                    self.tokenizer.wf(),
                    self.tokenizer.tokens() == tokens,
                    self.tokenizer.cursor() > before,
                    statements_at(tokens, entry, Seq::empty()) == statements_at(
                        tokens,
                        (self.tokenizer.cursor() + crate::grammar::semicolons(
                            tokens,
                            self.tokenizer.cursor(),
                        )) as nat,
                        statement_models(statements@),
                    ),
                decreases remaining(tokens, self.tokenizer.cursor() as int),
            {
                self.tokenizer.next_token();
            }
        }
        Ok(statements)
    }

    /// Reads one statement.
    pub fn parse_statement(&mut self) -> (out: Result<Statement, ParseError>)
        requires
            old(self).wf(),
        ensures
            final(self).wf(),
            final(self).tokens() == old(self).tokens(),
            match statement_at(old(self).tokens(), old(self).cursor()) {
                Ok((s, n)) => statement_answer(out) == Ok::<StatementModel, ParseErrorModel>(s)
                    && final(self).cursor() == old(self).cursor() + n,
                Err(e) => statement_answer(out) == Err::<StatementModel, ParseErrorModel>(e),
            },
    {
        Statement::parse(&mut self.tokenizer)
    }

    /// Reads the input as a program: as the statements from the cursor on
    /// where there is at least one, else as one expression from the start.
    pub fn parse_program(&mut self) -> (out: Result<ParsedProgram, ParseError>)
        requires
            old(self).wf(),
        ensures
            final(self).wf(),
            final(self).tokens() == old(self).tokens(),
            program_answer(out) == program(old(self).tokens(), old(self).cursor()),
    {
        let mut attempt = Parser { tokenizer: self.tokenizer.clone() };
        match attempt.parse_statements() {
            Ok(statements) => {
                if statements.len() > 0 {
                    proof {
                        crate::ast_statement::lemma_statement_models(statements@);
                    }
                    *self = attempt;
                    return Ok(ParsedProgram::Statements(statements));
                }
                proof {
                    crate::ast_statement::lemma_statement_models(statements@);
                }
            },
            Err(_) => {},
        }
        self.tokenizer.reset();
        match self.parse_expression() {
            Ok(e) => Ok(ParsedProgram::Expression(e)),
            Err(e) => Err(e),
        }
    }
}

/// Reads `input` as one expression.
pub fn parse_expression(input: &str) -> (out: Result<Expression, ParseError>)
    ensures
        expression_answer(out) == whole_expression(lex(input@), 0),
{
    let tokenizer = Tokenizer::from_input(input);
    let mut parser = Parser::new(tokenizer);
    parser.parse_expression()
}

/// Reads `input` as a program: as statements where it holds at least one,
/// else as one expression.
pub fn parse_program(input: &str) -> (out: Result<ParsedProgram, ParseError>)
    ensures
        program_answer(out) == program(lex(input@), 0),
{
    let tokenizer = Tokenizer::from_input(input);
    let mut parser = Parser::new(tokenizer);
    parser.parse_program()
}

/// Length of the part of `s` that begins at `from` and ends before the
/// next semicolon.
pub open spec fn segment(s: Seq<char>, from: int) -> nat
    decreases s.len() - from,
{
    if 0 <= from < s.len() && s[from] != ';' {
        1 + segment(s, from + 1)
    } else {
        0
    }
}

/// Whether `s` holds nothing but white space.
pub open spec fn blank(s: Seq<char>) -> bool {
    forall|i: int| 0 <= i < s.len() ==> whitespace(#[trigger] s[i])
}

/// The expressions that the parts of `s` from `from` on read as, behind
/// those in `done`. Semicolons part the text; blank parts are passed over;
/// each other part is one expression.
pub open spec fn sequence_from(s: Seq<char>, from: nat, done: Seq<ExpressionModel>) -> Result<
    Seq<ExpressionModel>,
    ParseErrorModel,
>
    decreases remaining(s, from as int),
{
    if from >= s.len() {
        Ok(done)
    } else {
        let n = segment(s, from as int);
        let part = s.subrange(from as int, (from + n) as int);
        if blank(part) {
            sequence_from(s, from + n + 1, done)
        } else {
            match whole_expression(lex(part), 0) {
                Ok(e) => sequence_from(s, from + n + 1, done.push(e)),
                Err(e) => Err(e),
            }
        }
    }
}

fn scan_segment(chars: &Vec<char>, from: usize) -> (n: usize)
    requires
        from <= chars.len(),
    ensures
        n == segment(chars@, from as int),
        from + n <= chars.len(),
{
    let mut i: usize = from;
    while i < chars.len() && chars[i] != ';'
        invariant
            from <= i <= chars.len(),
            segment(chars@, from as int) == (i - from) + segment(chars@, i as int),
        decreases chars.len() - i,
    {
        i += 1;
    }
    i - from
}

fn copy_part(chars: &Vec<char>, from: usize, to: usize) -> (out: Vec<char>)
    requires
        from <= to <= chars.len(),
    ensures
        out@ == chars@.subrange(from as int, to as int),
{
    let mut out: Vec<char> = Vec::new();
    let mut i: usize = from;
    while i < to
        invariant
            from <= i <= to <= chars.len(),
            out@ == chars@.subrange(from as int, i as int),
        decreases to - i,
    {
        out.push(chars[i]);
        i += 1;
        assert(chars@.subrange(from as int, i as int) == chars@.subrange(from as int, i - 1).push(
            chars@[i - 1],
        ));
    }
    out
}

fn is_blank(chars: &Vec<char>) -> (out: bool)
    ensures
        out == blank(chars@),
{
    let mut i: usize = 0;
    while i < chars.len()
        invariant
            i <= chars.len(),
            forall|j: int| 0 <= j < i ==> whitespace(#[trigger] chars@[j]),
        decreases chars.len() - i,
    {
        if !is_whitespace(chars[i]) {
            return false;
        }
        i += 1;
    }
    true
}

/// The model of a parser's answer.
pub open spec fn sequence_answer(out: Result<Vec<Expression>, ParseError>) -> Result<
    Seq<ExpressionModel>,
    ParseErrorModel,
> {
    match out {
        Ok(list) => Ok(expression_models(list@)),
        Err(e) => Err(e@),
    }
}

impl Expression {
    /// Reads `input` as one expression.
    pub fn parse_single(input: &str) -> (out: Result<Expression, ParseError>)
        ensures
            expression_answer(out) == whole_expression(lex(input@), 0),
    {
        parse_expression(input)
    }

    /// Reads `input` as expressions that semicolons separate. Blank parts
    /// are passed over.
    pub fn parse_from_str(input: &str) -> (out: Result<Vec<Expression>, ParseError>)
        ensures
            sequence_answer(out) == sequence_from(input@, 0, Seq::empty()),
    {
        let chars = chars_of(input);
        let mut list: Vec<Expression> = Vec::new();
        let mut from: usize = 0;
        assert(expression_models(list@) =~= Seq::empty());
        while from < chars.len()
            invariant
                chars@ == input@,
                sequence_from(input@, 0, Seq::empty()) == sequence_from(
                    input@,
                    from as nat,
                    expression_models(list@),
                ),
            decreases remaining(chars@, from as int),
        {
            let n = scan_segment(&chars, from);
            let part = copy_part(&chars, from, from + n);
            if !is_blank(&part) {
                let mut parser = Parser::new(Tokenizer::from_chars(&part));
                match parser.parse_expression() {
                    Ok(e) => {
                        proof {
                            lemma_expression_models_push(list@, e);
                        }
                        list.push(e);
                    },
                    Err(e) => {
                        return Err(e);
                    },
                }
            }
            let ghost behind = (from + n + 1) as nat;
            if chars.len() - from - n == 0 {
                from = chars.len();
            } else {
                from = from + n + 1;
            }
            assert(sequence_from(input@, behind, expression_models(list@)) == sequence_from(
                input@,
                from as nat,
                expression_models(list@),
            ));
        }
        Ok(list)
    }
}

} // verus!
