//! Lexical analysis: from source text to a list of tokens.
//!
//! [`lex`] says, as a function of the characters of the input, which tokens
//! the input holds. [`Tokenizer::from_input`] computes exactly that list and
//! then hands the tokens out one by one.

use vstd::prelude::*;
use crate::error_types::ParseError;
use crate::text::{
    binary_digit, chars_of, decimal_digit, hex_digit, is_binary_digit, is_decimal_digit,
    is_hex_digit, is_whitespace, is_word_part, is_word_start, push_text, reads, text_of,
    remaining, whitespace, word_part, word_start,
};

verus! {

/// A token of the language.
#[derive(Debug, PartialEq, Eq)]
pub enum Token {
    /// A number (decimal `12`, `3.5`, `.5`; hexadecimal `0xFF`; binary
    /// `0b101`) or an identifier, as written.
    Literal(String),
    /// An operator or a punctuation mark. Operators written with two
    /// characters carry a one-letter code: `e` for `==`, `n` for `!=`, `g`
    /// for `>=`, `l` for `<=`, `x` for `^^`, `q` for `!^`, `a` for `!&`,
    /// `o` for `!|`; `&&` and `||` carry `&` and `|`.
    Operator(char),
    /// An augmented assignment operator: `+=`, `-=`, `*=`, `/=`, `%=`, `^=`.
    AugAssign(String),
    /// A reserved word.
    Keyword(String),
    /// The end of the input.
    EndOfInput,
}

/// What a [`Token`] says, with texts as character sequences.
pub enum TokenModel {
    Literal(Seq<char>),
    Operator(char),
    AugAssign(Seq<char>),
    Keyword(Seq<char>),
    EndOfInput,
}

impl View for Token {
    type V = TokenModel;

    open spec fn view(&self) -> TokenModel {
        match self {
            Token::Literal(text) => TokenModel::Literal(text@),
            Token::Operator(c) => TokenModel::Operator(*c),
            Token::AugAssign(text) => TokenModel::AugAssign(text@),
            Token::Keyword(text) => TokenModel::Keyword(text@),
            Token::EndOfInput => TokenModel::EndOfInput,
        }
    }
}

impl Clone for Token {
    fn clone(&self) -> (out: Token)
        ensures
            out@ == self@,
    {
        match self {
            Token::Literal(text) => Token::Literal(text.clone()),
            Token::Operator(c) => Token::Operator(*c),
            Token::AugAssign(text) => Token::AugAssign(text.clone()),
            Token::Keyword(text) => Token::Keyword(text.clone()),
            Token::EndOfInput => Token::EndOfInput,
        }
    }
}

/// The models of a list of tokens.
pub open spec fn models(tokens: Seq<Token>) -> Seq<TokenModel> {
    tokens.map_values(|t: Token| t@)
}

/// The kinds of character runs the lexer collects.
#[derive(Clone, Copy, Debug)]
pub enum CharClass {
    Decimal,
    Hex,
    Binary,
    Word,
}

/// Whether `c` belongs to `class`.
pub open spec fn in_class(class: CharClass, c: char) -> bool {
    match class {
        CharClass::Decimal => decimal_digit(c),
        CharClass::Hex => hex_digit(c),
        CharClass::Binary => binary_digit(c),
        CharClass::Word => word_part(c),
    }
}

/// Length of the longest run of `class` characters of `s` that starts at `from`.
pub open spec fn run(s: Seq<char>, from: int, class: CharClass) -> nat
    decreases s.len() - from,
{
    if 0 <= from < s.len() && in_class(class, s[from]) {
        1 + run(s, from + 1, class)
    } else {
        0
    }
}

/// Length of a fraction `.digits` at `from`; zero where there is none. A
/// dot that no digit follows is not part of a number.
pub open spec fn fraction(s: Seq<char>, from: int) -> nat {
    if 0 <= from && from + 1 < s.len() && s[from] == '.' && decimal_digit(s[from + 1]) {
        1 + run(s, from + 1, CharClass::Decimal)
    } else {
        0
    }
}

/// Length of the rest of a line comment whose body starts at `from`,
/// the line break included.
pub open spec fn line_comment(s: Seq<char>, from: int) -> nat
    decreases s.len() - from,
{
    if from < 0 || from >= s.len() {
        0
    } else if s[from] == '\n' {
        1
    } else {
        1 + line_comment(s, from + 1)
    }
}

/// Length of the rest of a block comment whose body starts at `from`, the
/// closing `*/` included. A comment that is never closed runs to the end.
pub open spec fn block_comment(s: Seq<char>, from: int) -> nat
    decreases s.len() - from,
{
    if from < 0 || from >= s.len() {
        0
    } else if s[from] == '*' && from + 1 < s.len() && s[from + 1] == '/' {
        2
    } else {
        1 + block_comment(s, from + 1)
    }
}

/// Whether `text` is a reserved word.
pub open spec fn reserved(text: Seq<char>) -> bool {
    ||| text == "if"@
    ||| text == "else"@
    ||| text == "while"@
    ||| text == "break"@
    ||| text == "continue"@
    ||| text == "return"@
    ||| text == "let"@
    ||| text == "const"@
    ||| text == "true"@
    ||| text == "false"@
    ||| text == "end"@
    ||| text == "fn"@
    ||| text == "proc"@
}

/// The token for the identifier or reserved word `text`: `true` and `false`
/// stand for the numbers `1` and `0`.
pub open spec fn word_token(text: Seq<char>) -> TokenModel {
    if text == "true"@ {
        TokenModel::Literal(seq!['1'])
    } else if text == "false"@ {
        TokenModel::Literal(seq!['0'])
    } else if reserved(text) {
        TokenModel::Keyword(text)
    } else {
        TokenModel::Literal(text)
    }
}

/// The character at `at`, if there is one.
pub open spec fn at(s: Seq<char>, at: int) -> Option<char> {
    if 0 <= at < s.len() {
        Some(s[at])
    } else {
        None
    }
}

/// What stands at `pos`, given the character `c` there: the token, if the
/// characters make one, and how many characters beyond the first belong to
/// it. White space, comments and characters outside the language make no
/// token.
pub open spec fn scan(s: Seq<char>, pos: int) -> (Option<TokenModel>, nat) {
    let c = s[pos];
    let next = at(s, pos + 1);
    if whitespace(c) {
        (None, 0)
    } else if c == '/' {
        if next == Some('/') {
            (None, 1 + line_comment(s, pos + 2))
        } else if next == Some('*') {
            (None, 1 + block_comment(s, pos + 2))
        } else if next == Some('=') {
            (Some(TokenModel::AugAssign(seq!['/', '='])), 1)
        } else {
            (Some(TokenModel::Operator('/')), 0)
        }
    } else if decimal_digit(c) {
        if c == '0' && (next == Some('x') || next == Some('X')) {
            let n = run(s, pos + 2, CharClass::Hex);
            (Some(TokenModel::Literal(seq!['0', 'x'] + s.subrange(pos + 2, pos + 2 + n))), 1 + n)
        } else if c == '0' && (next == Some('b') || next == Some('B')) {
            let n = run(s, pos + 2, CharClass::Binary);
            (Some(TokenModel::Literal(seq!['0', 'b'] + s.subrange(pos + 2, pos + 2 + n))), 1 + n)
        } else {
            let n = run(s, pos + 1, CharClass::Decimal);
            let f = fraction(s, pos + 1 + n);
            (Some(TokenModel::Literal(s.subrange(pos, pos + 1 + n + f))), n + f)
        }
    } else if c == '.' {
        if next is Some && decimal_digit(next->0) {
            let n = run(s, pos + 1, CharClass::Decimal);
            (Some(TokenModel::Literal(s.subrange(pos, pos + 1 + n))), n)
        } else {
            (Some(TokenModel::Operator('.')), 0)
        }
    } else if word_start(c) {
        let n = run(s, pos + 1, CharClass::Word);
        (Some(word_token(s.subrange(pos, pos + 1 + n))), n)
    } else if c == '(' || c == ')' || c == '{' || c == '}' || c == ';' || c == ',' || c == '√' {
        (Some(TokenModel::Operator(c)), 0)
    } else if c == '+' || c == '-' || c == '*' || c == '%' {
        if next == Some('=') {
            (Some(TokenModel::AugAssign(seq![c, '='])), 1)
        } else {
            (Some(TokenModel::Operator(c)), 0)
        }
    } else if c == '^' {
        if next == Some('=') {
            (Some(TokenModel::AugAssign(seq!['^', '='])), 1)
        } else if next == Some('^') {
            (Some(TokenModel::Operator('x')), 1)
        } else {
            (Some(TokenModel::Operator('^')), 0)
        }
    } else if c == '=' {
        if next == Some('=') {
            (Some(TokenModel::Operator('e')), 1)
        } else {
            (Some(TokenModel::Operator('=')), 0)
        }
    } else if c == '<' {
        if next == Some('=') {
            (Some(TokenModel::Operator('l')), 1)
        } else {
            (Some(TokenModel::Operator('<')), 0)
        }
    } else if c == '>' {
        if next == Some('=') {
            (Some(TokenModel::Operator('g')), 1)
        } else {
            (Some(TokenModel::Operator('>')), 0)
        }
    } else if c == '!' {
        if next == Some('=') {
            (Some(TokenModel::Operator('n')), 1)
        } else if next == Some('^') {
            (Some(TokenModel::Operator('q')), 1)
        } else if next == Some('&') {
            (Some(TokenModel::Operator('a')), 1)
        } else if next == Some('|') {
            (Some(TokenModel::Operator('o')), 1)
        } else {
            (Some(TokenModel::Operator('!')), 0)
        }
    } else if c == '&' || c == '|' {
        if next == Some(c) {
            (Some(TokenModel::Operator(c)), 1)
        } else {
            (Some(TokenModel::Operator(c)), 0)
        }
    } else {
        (None, 0)
    }
}

/// The tokens of `s` from `pos` on, closed by the end marker.
pub open spec fn lex_from(s: Seq<char>, pos: int) -> Seq<TokenModel>
    decreases remaining(s, pos),
{
    if pos < 0 || pos >= s.len() {
        seq![TokenModel::EndOfInput]
    } else {
        let (token, more) = scan(s, pos);
        let rest = lex_from(s, pos + 1 + more);
        match token {
            Some(t) => seq![t] + rest,
            None => rest,
        }
    }
}

/// The tokens of the text `s`.
pub open spec fn lex(s: Seq<char>) -> Seq<TokenModel> {
    lex_from(s, 0)
}

/// Every token list ends with the end marker, and holds it nowhere else.
pub proof fn lemma_lex_closed(s: Seq<char>, pos: int)
    ensures
        lex_from(s, pos).len() >= 1,
        lex_from(s, pos).last() == TokenModel::EndOfInput,
        forall|i: int|
            0 <= i < lex_from(s, pos).len() - 1 ==> #[trigger] lex_from(s, pos)[i]
                != TokenModel::EndOfInput,
    decreases remaining(s, pos),
{
    if !(pos < 0 || pos >= s.len()) {
        let (token, more) = scan(s, pos);
        lemma_lex_closed(s, pos + 1 + more);
    }
}

fn is_in_class(class: CharClass, c: char) -> (out: bool)
    ensures
        out == in_class(class, c),
{
    match class {
        CharClass::Decimal => is_decimal_digit(c),
        CharClass::Hex => is_hex_digit(c),
        CharClass::Binary => is_binary_digit(c),
        CharClass::Word => is_word_part(c),
    }
}

fn scan_run(chars: &Vec<char>, from: usize, class: CharClass) -> (n: usize)
    requires
        from <= chars.len(),
    ensures
        n == run(chars@, from as int, class),
        from + n <= chars.len(),
{
    let mut i: usize = from;
    while i < chars.len() && is_in_class(class, chars[i])
        invariant
            from <= i <= chars.len(),
            run(chars@, from as int, class) == (i - from) + run(chars@, i as int, class),
        decreases chars.len() - i,
    {
        i += 1;
    }
    i - from
}

fn scan_fraction(chars: &Vec<char>, from: usize) -> (n: usize)
    requires
        from <= chars.len(),
    ensures
        n == fraction(chars@, from as int),
        from + n <= chars.len(),
{
    if from < chars.len() && chars.len() - from > 1 && chars[from] == '.' && is_decimal_digit(
        chars[from + 1],
    ) {
        1 + scan_run(chars, from + 1, CharClass::Decimal)
    } else {
        0
    }
}

fn scan_line_comment(chars: &Vec<char>, from: usize) -> (n: usize)
    requires
        from <= chars.len(),
    ensures
        n == line_comment(chars@, from as int),
        from + n <= chars.len(),
{
    let mut i: usize = from;
    while i < chars.len()
        invariant
            from <= i <= chars.len(),
            line_comment(chars@, from as int) == (i - from) + line_comment(chars@, i as int),
        decreases chars.len() - i,
    {
        if chars[i] == '\n' {
            return i - from + 1;
        }
        i += 1;
    }
    i - from
}

fn scan_block_comment(chars: &Vec<char>, from: usize) -> (n: usize)
    requires
        from <= chars.len(),
    ensures
        n == block_comment(chars@, from as int),
        from + n <= chars.len(),
{
    let mut i: usize = from;
    while i < chars.len()
        invariant
            from <= i <= chars.len(),
            block_comment(chars@, from as int) == (i - from) + block_comment(chars@, i as int),
        decreases chars.len() - i,
    {
        if chars[i] == '*' && chars.len() - i > 1 && chars[i + 1] == '/' {
            return i - from + 2;
        }
        i += 1;
    }
    i - from
}

fn is_reserved(text: &str) -> (out: bool)
    ensures
        out == reserved(text@),
{
    reads(text, "if") || reads(text, "else") || reads(text, "while") || reads(text, "break")
        || reads(text, "continue") || reads(text, "return") || reads(text, "let") || reads(
        text,
        "const",
    ) || reads(text, "true") || reads(text, "false") || reads(text, "end") || reads(text, "fn")
        || reads(text, "proc")
}

fn make_word_token(text: String) -> (out: Token)
    ensures
        out@ == word_token(text@),
{
    if reads(text.as_str(), "true") {
        Token::Literal(pair_text('1', None))
    } else if reads(text.as_str(), "false") {
        Token::Literal(pair_text('0', None))
    } else if is_reserved(text.as_str()) {
        Token::Keyword(text)
    } else {
        Token::Literal(text)
    }
}

fn pair_text(first: char, second: Option<char>) -> (out: String)
    ensures
        out@ == match second {
            Some(c) => seq![first, c],
            None => seq![first],
        },
{
    let mut out = String::new();
    out.push(first);
    match second {
        Some(c) => {
            out.push(c);
        },
        None => {},
    }
    assert(out@ =~= match second {
        Some(c) => seq![first, c],
        None => seq![first],
    });
    out
}

fn prefixed_text(marker: char, chars: &Vec<char>, from: usize, to: usize) -> (out: String)
    requires
        from <= to <= chars.len(),
    ensures
        out@ == seq!['0', marker] + chars@.subrange(from as int, to as int),
{
    let mut out = pair_text('0', Some(marker));
    let digits = text_of(chars, from, to);
    push_text(&mut out, digits.as_str());
    out
}

fn next_char(chars: &Vec<char>, pos: usize) -> (out: Option<char>)
    requires
        pos < chars.len(),
    ensures
        out == at(chars@, pos + 1),
{
    if chars.len() - pos > 1 {
        Some(chars[pos + 1])
    } else {
        None
    }
}

fn follows(next: Option<char>, c: char) -> (out: bool)
    ensures
        out == (next == Some(c)),
{
    match next {
        Some(d) => d == c,
        None => false,
    }
}

fn scan_token(chars: &Vec<char>, pos: usize) -> (out: (Option<Token>, usize))
    requires
        pos < chars.len(),
    ensures
        match out.0 {
            Some(t) => scan(chars@, pos as int).0 == Some(t@),
            None => scan(chars@, pos as int).0 is None,
        },
        out.1 == scan(chars@, pos as int).1,
        pos + 1 + out.1 <= chars.len(),
{
    let c = chars[pos];
    let next = next_char(chars, pos);
    if is_whitespace(c) {
        (None, 0)
    } else if c == '/' {
        if follows(next, '/') {
            (None, 1 + scan_line_comment(chars, pos + 2))
        } else if follows(next, '*') {
            (None, 1 + scan_block_comment(chars, pos + 2))
        } else if follows(next, '=') {
            (Some(Token::AugAssign(pair_text('/', Some('=')))), 1)
        } else {
            (Some(Token::Operator('/')), 0)
        }
    } else if is_decimal_digit(c) {
        if c == '0' && (follows(next, 'x') || follows(next, 'X')) {
            let n = scan_run(chars, pos + 2, CharClass::Hex);
            (Some(Token::Literal(prefixed_text('x', chars, pos + 2, pos + 2 + n))), 1 + n)
        } else if c == '0' && (follows(next, 'b') || follows(next, 'B')) {
            let n = scan_run(chars, pos + 2, CharClass::Binary);
            (Some(Token::Literal(prefixed_text('b', chars, pos + 2, pos + 2 + n))), 1 + n)
        } else {
            let n = scan_run(chars, pos + 1, CharClass::Decimal);
            let f = scan_fraction(chars, pos + 1 + n);
            (Some(Token::Literal(text_of(chars, pos, pos + 1 + n + f))), n + f)
        }
    } else if c == '.' {
        let digit_follows = match next {
            Some(d) => is_decimal_digit(d),
            None => false,
        };
        if digit_follows {
            let n = scan_run(chars, pos + 1, CharClass::Decimal);
            (Some(Token::Literal(text_of(chars, pos, pos + 1 + n))), n)
        } else {
            (Some(Token::Operator('.')), 0)
        }
    } else if is_word_start(c) {
        let n = scan_run(chars, pos + 1, CharClass::Word);
        (Some(make_word_token(text_of(chars, pos, pos + 1 + n))), n)
    } else if c == '(' || c == ')' || c == '{' || c == '}' || c == ';' || c == ',' || c == '√' {
        (Some(Token::Operator(c)), 0)
    } else if c == '+' || c == '-' || c == '*' || c == '%' {
        if follows(next, '=') {
            (Some(Token::AugAssign(pair_text(c, Some('=')))), 1)
        } else {
            (Some(Token::Operator(c)), 0)
        }
    } else if c == '^' {
        if follows(next, '=') {
            (Some(Token::AugAssign(pair_text('^', Some('=')))), 1)
        } else if follows(next, '^') {
            (Some(Token::Operator('x')), 1)
        } else {
            (Some(Token::Operator('^')), 0)
        }
    } else if c == '=' {
        if follows(next, '=') {
            (Some(Token::Operator('e')), 1)
        } else {
            (Some(Token::Operator('=')), 0)
        }
    } else if c == '<' {
        if follows(next, '=') {
            (Some(Token::Operator('l')), 1)
        } else {
            (Some(Token::Operator('<')), 0)
        }
    } else if c == '>' {
        if follows(next, '=') {
            (Some(Token::Operator('g')), 1)
        } else {
            (Some(Token::Operator('>')), 0)
        }
    } else if c == '!' {
        if follows(next, '=') {
            (Some(Token::Operator('n')), 1)
        } else if follows(next, '^') {
            (Some(Token::Operator('q')), 1)
        } else if follows(next, '&') {
            (Some(Token::Operator('a')), 1)
        } else if follows(next, '|') {
            (Some(Token::Operator('o')), 1)
        } else {
            (Some(Token::Operator('!')), 0)
        }
    } else if c == '&' || c == '|' {
        if follows(next, c) {
            (Some(Token::Operator(c)), 1)
        } else {
            (Some(Token::Operator(c)), 0)
        }
    } else {
        (None, 0)
    }
}

/// The tokens of `chars`.
fn tokenize(chars: &Vec<char>) -> (tokens: Vec<Token>)
    ensures
        models(tokens@) == lex(chars@),
{
    let mut tokens: Vec<Token> = Vec::new();
    let mut pos: usize = 0;
    while pos < chars.len()
        invariant
            pos <= chars.len(),
            models(tokens@) + lex_from(chars@, pos as int) == lex(chars@),
        decreases chars.len() - pos,
    {
        let (token, more) = scan_token(chars, pos);
        let ghost before = tokens@;
        match token {
            Some(t) => {
                tokens.push(t);
                assert(models(tokens@) =~= models(before) + seq![t@]);
                assert(models(tokens@) + lex_from(chars@, pos + 1 + more) =~= models(before) + (
                seq![t@] + lex_from(chars@, pos + 1 + more)));
            },
            None => {},
        }
        pos = pos + 1 + more;
    }
    let ghost before = tokens@;
    tokens.push(Token::EndOfInput);
    assert(models(tokens@) =~= models(before) + seq![TokenModel::EndOfInput]);
    tokens
}

/// The mark that quotes a text in a token's description.
pub open spec fn quoted(text: Seq<char>) -> Seq<char> {
    seq!['"'] + text + seq!['"']
}

impl TokenModel {
    /// The token written out with its kind, as error messages show it.
    pub open spec fn description(self) -> Seq<char> {
        match self {
            TokenModel::Literal(text) => "Literal("@ + quoted(text) + ")"@,
            TokenModel::Operator(c) => "Operator('"@ + seq![c] + "')"@,
            TokenModel::AugAssign(text) => "AugAssign("@ + quoted(text) + ")"@,
            TokenModel::Keyword(text) => "Keyword("@ + quoted(text) + ")"@,
            TokenModel::EndOfInput => "EndOfInput"@,
        }
    }
}

fn push_quoted(out: &mut String, text: &str)
    ensures
        final(out)@ == old(out)@ + quoted(text@),
{
    out.push('"');
    push_text(out, text);
    out.push('"');
    assert(final(out)@ =~= old(out)@ + quoted(text@));
}

impl Token {
    /// The token written out with its kind, as error messages show it.
    pub fn describe(&self) -> (out: String)
        ensures
            out@ == self@.description(),
    {
        let mut out = String::new();
        match self {
            Token::Literal(text) => {
                push_text(&mut out, "Literal(");
                push_quoted(&mut out, text.as_str());
                push_text(&mut out, ")");
            },
            Token::Operator(c) => {
                push_text(&mut out, "Operator('");
                out.push(*c);
                push_text(&mut out, "')");
            },
            Token::AugAssign(text) => {
                push_text(&mut out, "AugAssign(");
                push_quoted(&mut out, text.as_str());
                push_text(&mut out, ")");
            },
            Token::Keyword(text) => {
                push_text(&mut out, "Keyword(");
                push_quoted(&mut out, text.as_str());
                push_text(&mut out, ")");
            },
            Token::EndOfInput => {
                push_text(&mut out, "EndOfInput");
            },
        }
        out
    }

    /// Whether both tokens say the same.
    pub fn same(&self, other: &Token) -> (out: bool)
        ensures
            out == (self@ == other@),
    {
        match (self, other) {
            (Token::Literal(a), Token::Literal(b)) => *a == *b,
            (Token::Operator(a), Token::Operator(b)) => *a == *b,
            (Token::AugAssign(a), Token::AugAssign(b)) => *a == *b,
            (Token::Keyword(a), Token::Keyword(b)) => *a == *b,
            (Token::EndOfInput, Token::EndOfInput) => true,
            _ => false,
        }
    }

    /// Whether the token is the operator `c`.
    pub fn is_operator(&self, c: char) -> (out: bool)
        ensures
            out == (self@ == TokenModel::Operator(c)),
    {
        match self {
            Token::Operator(d) => *d == c,
            _ => false,
        }
    }

    /// Whether the token is the reserved word `word`.
    pub fn is_keyword(&self, word: &str) -> (out: bool)
        ensures
            out == (self@ == TokenModel::Keyword(word@)),
    {
        match self {
            Token::Keyword(text) => reads(text.as_str(), word),
            _ => false,
        }
    }

    /// Whether the token is the end marker.
    pub fn is_end(&self) -> (out: bool)
        ensures
            out == (self@ == TokenModel::EndOfInput),
    {
        match self {
            Token::EndOfInput => true,
            _ => false,
        }
    }
}

/// The tokens of an input and a cursor into them.
#[derive(Debug)]
pub struct Tokenizer {
    /// The tokens of the input; the last one is the end marker.
    pub(crate) token_list: Vec<Token>,
    /// Index of the next token to hand out.
    pub(crate) position: usize,
}

impl Clone for Tokenizer {
    fn clone(&self) -> (out: Tokenizer)
        ensures
            out.tokens() == self.tokens(),
            out.cursor() == self.cursor(),
            self.wf() ==> out.wf(),
    {
        let mut token_list: Vec<Token> = Vec::new();
        let mut i: usize = 0;
        while i < self.token_list.len()
            invariant
                i <= self.token_list.len(),
                token_list.len() == i,
                forall|j: int| 0 <= j < i ==> token_list@[j]@ == self.token_list@[j]@,
            decreases self.token_list.len() - i,
        {
            token_list.push(self.token_list[i].clone());
            i += 1;
        }
        assert(models(token_list@) =~= models(self.token_list@));
        Tokenizer { token_list, position: self.position }
    }
}

impl Tokenizer {
    /// The models of all tokens of the input.
    pub closed spec fn tokens(&self) -> Seq<TokenModel> {
        models(self.token_list@)
    }

    /// Index of the next token to hand out.
    pub closed spec fn cursor(&self) -> nat {
        self.position as nat
    }

    /// The token list is closed by the end marker, and the cursor stays
    /// within one step behind it.
    pub closed spec fn wf(&self) -> bool {
        &&& self.token_list.len() >= 1
        &&& self.token_list@.last()@ == TokenModel::EndOfInput
        &&& self.position <= self.token_list.len()
    }

    /// The token at index `i`, the end marker behind the list.
    pub open spec fn token_at(tokens: Seq<TokenModel>, i: int) -> TokenModel {
        if 0 <= i < tokens.len() {
            tokens[i]
        } else {
            TokenModel::EndOfInput
        }
    }

    /// The token under the cursor.
    pub open spec fn current(&self) -> TokenModel {
        Tokenizer::token_at(self.tokens(), self.cursor() as int)
    }

    /// Where the cursor stands after handing out one more token.
    pub open spec fn advanced(tokens: Seq<TokenModel>, cursor: nat) -> nat {
        if cursor >= tokens.len() {
            cursor
        } else {
            cursor + 1
        }
    }

    /// Splits `input` into tokens; the cursor is on the first one.
    pub fn from_input(input: &str) -> (out: Tokenizer)
        ensures
            out.wf(),
            out.tokens() == lex(input@),
            out.cursor() == 0,
    {
        let chars = chars_of(input);
        Tokenizer::from_chars(&chars)
    }

    /// Splits `chars` into tokens; the cursor is on the first one.
    pub fn from_chars(chars: &Vec<char>) -> (out: Tokenizer)
        ensures
            out.wf(),
            out.tokens() == lex(chars@),
            out.cursor() == 0,
    {
        let token_list = tokenize(chars);
        proof {
            lemma_lex_closed(chars@, 0);
            assert(models(token_list@).len() == token_list@.len());
            assert(models(token_list@).last() == token_list@.last()@);
        }
        Tokenizer { token_list, position: 0 }
    }

    /// Hands out the token under the cursor and moves the cursor on. Behind
    /// the list it keeps handing out the end marker.
    pub fn next_token(&mut self) -> (out: Token)
        requires
            old(self).wf(),
        ensures
            final(self).wf(),
            final(self).tokens() == old(self).tokens(),
            out@ == old(self).current(),
            final(self).cursor() == Tokenizer::advanced(old(self).tokens(), old(self).cursor()),
    {
        if self.position >= self.token_list.len() {
            Token::EndOfInput
        } else {
            let token = self.token_list[self.position].clone();
            self.position += 1;
            token
        }
    }

    /// The token under the cursor.
    pub fn peek_token(&self) -> (out: &Token)
        requires
            self.wf(),
        ensures
            out@ == self.current(),
    {
        if self.position >= self.token_list.len() {
            &self.token_list[self.token_list.len() - 1]
        } else {
            &self.token_list[self.position]
        }
    }

    /// The token `offset` places behind the one under the cursor.
    pub fn peek_ahead(&self, offset: usize) -> (out: &Token)
        requires
            self.wf(),
        ensures
            out@ == Tokenizer::token_at(self.tokens(), self.cursor() + offset),
    {
        if self.position >= self.token_list.len() || offset >= self.token_list.len()
            - self.position {
            &self.token_list[self.token_list.len() - 1]
        } else {
            &self.token_list[self.position + offset]
        }
    }

    /// Whether the token under the cursor is `expected`.
    pub fn check(&self, expected: &Token) -> (out: bool)
        requires
            self.wf(),
        ensures
            out == (self.current() == expected@),
    {
        self.peek_token().same(expected)
    }

    /// Hands out the next token if it is `expected`, and reports both
    /// otherwise. The cursor moves on either way.
    pub fn expect(&mut self, expected: Token) -> (out: Result<Token, ParseError>)
        requires
            old(self).wf(),
        ensures
            final(self).wf(),
            final(self).tokens() == old(self).tokens(),
            final(self).cursor() == Tokenizer::advanced(old(self).tokens(), old(self).cursor()),
            match out {
                Ok(token) => token@ == expected@ && old(self).current() == expected@,
                Err(e) => old(self).current() != expected@ && e@
                    == (crate::error_types::ParseErrorModel::Expected {
                    expected: expected@.description(),
                    found: old(self).current().description(),
                }),
            },
    {
        let token = self.next_token();
        if token.same(&expected) {
            Ok(token)
        } else {
            Err(ParseError::Expected { expected: expected.describe(), found: token.describe() })
        }
    }

    /// Puts the cursor back on the first token.
    pub fn reset(&mut self)
        requires
            old(self).wf(),
        ensures
            final(self).wf(),
            final(self).tokens() == old(self).tokens(),
            final(self).cursor() == 0,
    {
        self.position = 0;
    }
}

} // verus!
