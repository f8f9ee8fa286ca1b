//! Character classes and small text utilities shared by the lexer and the
//! message formatting code.

use vstd::prelude::*;
use vstd::string::StringExecFns;

verus! {

/// `String::push` appends exactly one character to the text.
pub assume_specification[ String::push ](text: &mut String, c: char)
    ensures
        final(text)@ == old(text)@.push(c),
;

/// The characters of `text`, in order.
pub fn chars_of(text: &str) -> (out: Vec<char>)
    ensures
        out@ == text@,
{
    let mut out: Vec<char> = Vec::new();
    for c in it: text.chars()
        invariant
            out@ == it.seq().take(it.index()),
            it.seq() == text@,
    {
        out.push(c);
    }
    out
}

/// The text made of `chars[from..to]`.
pub fn text_of(chars: &Vec<char>, from: usize, to: usize) -> (out: String)
    requires
        from <= to <= chars.len(),
    ensures
        out@ == chars@.subrange(from as int, to as int),
{
    let mut out = String::new();
    let mut i: usize = from;
    while i < to
        invariant
            from <= i <= to <= chars.len(),
            out@ == chars@.subrange(from as int, i as int),
        decreases to - i,
    {
        out.push(chars[i]);
        i += 1;
        assert(chars@.subrange(from as int, i as int) == chars@.subrange(from as int, i - 1).push(chars@[i - 1]));
    }
    out
}

/// How many items of `s` stand at `pos` or behind it.
pub open spec fn remaining<T>(s: Seq<T>, pos: int) -> nat {
    if pos < s.len() {
        (s.len() - pos) as nat
    } else {
        0
    }
}

/// Unicode white space.
pub open spec fn whitespace(c: char) -> bool {
    let n = c as u32;
    ||| 0x09 <= n <= 0x0d
    ||| n == 0x20
    ||| n == 0x85
    ||| n == 0xa0
    ||| n == 0x1680
    ||| 0x2000 <= n <= 0x200a
    ||| n == 0x2028
    ||| n == 0x2029
    ||| n == 0x202f
    ||| n == 0x205f
    ||| n == 0x3000
}

/// `0` to `9`.
pub open spec fn decimal_digit(c: char) -> bool {
    '0' <= c <= '9'
}

/// `0` or `1`.
pub open spec fn binary_digit(c: char) -> bool {
    c == '0' || c == '1'
}

/// A decimal digit or a letter `a` to `f` in either case.
pub open spec fn hex_digit(c: char) -> bool {
    decimal_digit(c) || 'a' <= c <= 'f' || 'A' <= c <= 'F'
}

/// An ASCII letter.
pub open spec fn letter(c: char) -> bool {
    'a' <= c <= 'z' || 'A' <= c <= 'Z'
}

/// A character that may start an identifier.
pub open spec fn word_start(c: char) -> bool {
    letter(c) || c == '_'
}

/// A character that may continue an identifier.
pub open spec fn word_part(c: char) -> bool {
    letter(c) || decimal_digit(c) || c == '_'
}

/// Whether `c` is Unicode white space.
pub fn is_whitespace(c: char) -> (out: bool)
    ensures
        out == whitespace(c),
{
    let n = c as u32;
    (0x09 <= n && n <= 0x0d) || n == 0x20 || n == 0x85 || n == 0xa0 || n == 0x1680 || (0x2000 <= n
        && n <= 0x200a) || n == 0x2028 || n == 0x2029 || n == 0x202f || n == 0x205f || n == 0x3000
}

/// Whether `c` is a decimal digit.
pub fn is_decimal_digit(c: char) -> (out: bool)
    ensures
        out == decimal_digit(c),
{
    '0' <= c && c <= '9'
}

/// Whether `c` is a binary digit.
pub fn is_binary_digit(c: char) -> (out: bool)
    ensures
        out == binary_digit(c),
{
    c == '0' || c == '1'
}

/// Whether `c` is a hexadecimal digit.
pub fn is_hex_digit(c: char) -> (out: bool)
    ensures
        out == hex_digit(c),
{
    is_decimal_digit(c) || ('a' <= c && c <= 'f') || ('A' <= c && c <= 'F')
}

/// Whether `c` is an ASCII letter.
pub fn is_letter(c: char) -> (out: bool)
    ensures
        out == letter(c),
{
    ('a' <= c && c <= 'z') || ('A' <= c && c <= 'Z')
}

/// Whether `c` may start an identifier.
pub fn is_word_start(c: char) -> (out: bool)
    ensures
        out == word_start(c),
{
    is_letter(c) || c == '_'
}

/// Whether `c` may continue an identifier.
pub fn is_word_part(c: char) -> (out: bool)
    ensures
        out == word_part(c),
{
    is_letter(c) || is_decimal_digit(c) || c == '_'
}

/// The decimal digit for `d`, which is below ten.
pub open spec fn digit(d: nat) -> char {
    seq!['0', '1', '2', '3', '4', '5', '6', '7', '8', '9'][d as int]
}

/// The decimal numeral of `n`, without leading zeros.
pub open spec fn decimal(n: nat) -> Seq<char>
    decreases n,
{
    if n < 10 {
        seq![digit(n)]
    } else {
        decimal(n / 10).push(digit(n % 10))
    }
}

fn digit_char(d: u64) -> (out: char)
    requires
        d < 10,
    ensures
        out == digit(d as nat),
{
    match d {
        0 => '0',
        1 => '1',
        2 => '2',
        3 => '3',
        4 => '4',
        5 => '5',
        6 => '6',
        7 => '7',
        8 => '8',
        _ => '9',
    }
}

/// Appends the decimal numeral of `n` to `out`.
pub fn push_decimal(out: &mut String, n: u64)
    ensures
        final(out)@ == old(out)@ + decimal(n as nat),
    decreases n,
{
    if n >= 10 {
        push_decimal(out, n / 10);
    }
    out.push(digit_char(n % 10));
}

/// Appends `part` to `out`.
pub fn push_text(out: &mut String, part: &str)
    ensures
        final(out)@ == old(out)@ + part@,
{
    out.append(part);
}

/// Whether `text` reads exactly `word`.
pub fn reads(text: &str, word: &str) -> (out: bool)
    ensures
        out == (text@ == word@),
{
    let a = text.to_owned();
    let b = word.to_owned();
    a == b
}

} // verus!
