//! The tokenizer: from the text of a program to its tokens.
//!
//! The text of a float literal is not turned into a double here: that is
//! floating point, and the host's part.

use crate::errors::LexerError;
use crate::parser::{ControlToken, Lexeme};
use crate::text::{decimal, digit as digit_char, digits};
use vstd::prelude::*;

verus! {

/// A token as the tokenizer finds it: ready for the reader, or a float
/// literal whose text the host has yet to turn into a double.
#[derive(Debug, PartialEq)]
pub enum Scanned {
    Token(ControlToken),
    Float(String),
}

/// Mathematical model of a [`Scanned`].
pub enum Mark {
    Token(Lexeme),
    Float(Seq<char>),
}

impl View for Scanned {
    type V = Mark;

    open spec fn view(&self) -> Mark {
        match self {
            Scanned::Token(t) => Mark::Token(t@),
            Scanned::Float(s) => Mark::Float(s@),
        }
    }
}

/// The models of the tokens in `tokens`, in order.
pub open spec fn marks(tokens: Seq<Scanned>) -> Seq<Mark> {
    Seq::new(tokens.len(), |i: int| tokens[i]@)
}

impl Mark {
    /// Whether the token separates others and stands for nothing itself.
    pub open spec fn is_filler(self) -> bool {
        match self {
            Mark::Token(t) => t.is_filler(),
            Mark::Float(_) => false,
        }
    }
}

/// Whether the character is white space.
pub open spec fn is_space(c: char) -> bool {
    let u = c as u32;
    (9 <= u <= 13) || u == 32 || u == 0x85 || u == 0xA0 || u == 0x1680 || (0x2000 <= u <= 0x200A)
        || u == 0x2028 || u == 0x2029 || u == 0x202F || u == 0x205F || u == 0x3000
}

/// Whether the character is a decimal digit.
pub open spec fn is_digit(c: char) -> bool {
    48 <= c as u32 <= 57
}

/// Whether the character ends a symbol: white space, an apostrophe, a
/// double quote, a bracket or a semicolon.
pub open spec fn is_delimiter(c: char) -> bool {
    is_space(c) || c == '\'' || c == '"' || c == '(' || c == ')' || c == ';'
}

/// The end of the run of digits that starts at `at`.
pub open spec fn digits_end(text: Seq<char>, at: int) -> int
    decreases text.len() - at,
{
    if 0 <= at < text.len() && is_digit(text[at]) {
        digits_end(text, at + 1)
    } else {
        at
    }
}

/// The end of the run of characters that starts at `at` and holds nothing
/// that ends a symbol.
pub open spec fn symbol_end(text: Seq<char>, at: int) -> int
    decreases text.len() - at,
{
    if 0 <= at < text.len() && !is_delimiter(text[at]) {
        symbol_end(text, at + 1)
    } else {
        at
    }
}

/// The end of the line that the character at `at` stands in: the place of
/// the next line feed, or the end of the text.
pub open spec fn line_end(text: Seq<char>, at: int) -> int
    decreases text.len() - at,
{
    if 0 <= at < text.len() && text[at] != '\n' {
        line_end(text, at + 1)
    } else {
        at
    }
}

/// The place after the double quote that closes the string whose inside
/// goes on at `at`. A backslash takes the character after it along, which
/// is no line feed. There is no such place where the text ends first.
pub open spec fn string_end(text: Seq<char>, at: int) -> Option<int>
    decreases text.len() - at,
{
    if at < 0 || at >= text.len() {
        None
    } else if text[at] == '"' {
        Some(at + 1)
    } else if text[at] == '\\' {
        if at + 1 < text.len() && text[at + 1] != '\n' {
            string_end(text, at + 2)
        } else {
            None
        }
    } else {
        string_end(text, at + 1)
    }
}

/// The place after an optional minus sign at `at`.
pub open spec fn after_sign(text: Seq<char>, at: int) -> int {
    if 0 <= at < text.len() && text[at] == '-' {
        at + 1
    } else {
        at
    }
}

/// The end of the float literal that starts at `at`, if one does: an
/// optional minus sign, digits, a point and digits, with a digit on at
/// least one side of the point.
pub open spec fn float_end(text: Seq<char>, at: int) -> Option<int> {
    let start = after_sign(text, at);
    let point = digits_end(text, start);
    if 0 <= point < text.len() && text[point] == '.' {
        let end = digits_end(text, point + 1);
        if point > start || end > point + 1 {
            Some(end)
        } else {
            None
        }
    } else {
        None
    }
}

/// The end of the integer literal that starts at `at`, if one does: an
/// optional minus sign and at least one digit.
pub open spec fn integer_end(text: Seq<char>, at: int) -> Option<int> {
    let start = after_sign(text, at);
    let end = digits_end(text, start);
    if end > start {
        Some(end)
    } else {
        None
    }
}

/// The number that a run of digits stands for.
pub open spec fn digits_value(digits: Seq<char>) -> int
    decreases digits.len(),
{
    if digits.len() == 0 {
        0
    } else {
        digits_value(digits.drop_last()) * 10 + (digits.last() as u32 - 48)
    }
}

/// The token of the integer literal from `at` to `end`: the integer it
/// stands for, or an error where that is out of the range of integers.
pub open spec fn integer_mark(text: Seq<char>, at: int, end: int) -> Mark {
    let start = after_sign(text, at);
    let magnitude = digits_value(text.subrange(start, end));
    let value = if start > at {
        -magnitude
    } else {
        magnitude
    };
    if i64::MIN <= value <= i64::MAX {
        Mark::Token(Lexeme::Integer(value as i64))
    } else {
        Mark::Token(Lexeme::Error("Syntax Error"@))
    }
}

/// The token that starts at `at`, and the place after it. The kinds of
/// token are tried in this order: a bracket or an apostrophe; a float
/// literal; an integer literal; a character of white space; a string
/// between double quotes; a comment, from a semicolon, or from a hash or an
/// exclamation mark at the very start of the text, to the end of the line;
/// a symbol, which starts with anything but a point or a character that
/// ends symbols. What is none of these is an error up to the end of the
/// line.
pub open spec fn token_at(text: Seq<char>, at: int) -> (Mark, int)
    recommends
        0 <= at < text.len(),
{
    let c = text[at];
    if c == '(' {
        (Mark::Token(Lexeme::Open), at + 1)
    } else if c == ')' {
        (Mark::Token(Lexeme::Close), at + 1)
    } else if c == '\'' {
        (Mark::Token(Lexeme::Quote), at + 1)
    } else if let Some(end) = float_end(text, at) {
        (Mark::Float(text.subrange(at, end)), end)
    } else if let Some(end) = integer_end(text, at) {
        (integer_mark(text, at, end), end)
    } else if is_space(c) {
        (Mark::Token(Lexeme::Blank), at + 1)
    } else if c == '"' && string_end(text, at + 1) is Some {
        let end = string_end(text, at + 1).unwrap();
        (Mark::Token(Lexeme::Text(text.subrange(at + 1, end - 1))), end)
    } else if c == ';' || (at == 0 && (c == '#' || c == '!')) {
        (Mark::Token(Lexeme::Comment), line_end(text, at))
    } else if !is_delimiter(c) && c != '.' {
        let end = symbol_end(text, at + 1);
        (Mark::Token(Lexeme::Symbol(text.subrange(at, end))), end)
    } else {
        (Mark::Token(Lexeme::Error("Syntax Error"@)), line_end(text, at + 1))
    }
}

/// The tokens of the text from `at` on, without white space and comments.
pub open spec fn lex_from(text: Seq<char>, at: int) -> Seq<Mark>
    decreases text.len() - at,
{
    if at < 0 || at >= text.len() {
        Seq::empty()
    } else {
        let (mark, end) = token_at(text, at);
        if end <= at || end > text.len() {
            Seq::empty()
        } else if mark.is_filler() {
            lex_from(text, end)
        } else {
            seq![mark] + lex_from(text, end)
        }
    }
}

/// Whether the character is white space.
fn space(c: char) -> (r: bool)
    ensures
        r == is_space(c),
{
    let u = c as u32;
    (9 <= u && u <= 13) || u == 32 || u == 0x85 || u == 0xA0 || u == 0x1680 || (0x2000 <= u && u
        <= 0x200A) || u == 0x2028 || u == 0x2029 || u == 0x202F || u == 0x205F || u == 0x3000
}

/// Whether the character is a decimal digit.
fn digit(c: char) -> (r: bool)
    ensures
        r == is_digit(c),
{
    let u = c as u32;
    48 <= u && u <= 57
}

/// Whether the character ends a symbol.
fn delimiter(c: char) -> (r: bool)
    ensures
        r == is_delimiter(c),
{
    space(c) || c == '\'' || c == '"' || c == '(' || c == ')' || c == ';'
}

fn scan_digits(text: &Vec<char>, at: usize) -> (r: usize)
    requires
        at <= text@.len(),
    ensures
        r == digits_end(text@, at as int),
        at <= r <= text@.len(),
        forall|i: int| at <= i < r ==> is_digit(#[trigger] text@[i]),
{
    let mut i: usize = at;
    while i < text.len() && digit(text[i])
        invariant
            at <= i <= text@.len(),
            digits_end(text@, at as int) == digits_end(text@, i as int),
            forall|j: int| at <= j < i ==> is_digit(#[trigger] text@[j]),
        decreases text@.len() - i,
    {
        i += 1;
    }
    i
}

fn scan_symbol(text: &Vec<char>, at: usize) -> (r: usize)
    requires
        at <= text@.len(),
    ensures
        r == symbol_end(text@, at as int),
        at <= r <= text@.len(),
{
    let mut i: usize = at;
    while i < text.len() && !delimiter(text[i])
        invariant
            at <= i <= text@.len(),
            symbol_end(text@, at as int) == symbol_end(text@, i as int),
        decreases text@.len() - i,
    {
        i += 1;
    }
    i
}

fn scan_line(text: &Vec<char>, at: usize) -> (r: usize)
    requires
        at <= text@.len(),
    ensures
        r == line_end(text@, at as int),
        at <= r <= text@.len(),
{
    let mut i: usize = at;
    while i < text.len() && text[i] != '\n'
        invariant
            at <= i <= text@.len(),
            line_end(text@, at as int) == line_end(text@, i as int),
        decreases text@.len() - i,
    {
        i += 1;
    }
    i
}

fn scan_string(text: &Vec<char>, at: usize) -> (r: Option<usize>)
    requires
        at <= text@.len(),
    ensures
        r is Some <==> string_end(text@, at as int) is Some,
        r matches Some(end) ==> end == string_end(text@, at as int).unwrap() && at < end
            <= text@.len(),
{
    let mut i: usize = at;
    while i < text.len()
        invariant
            at <= i <= text@.len(),
            string_end(text@, at as int) == string_end(text@, i as int),
        decreases text@.len() - i,
    {
        if text[i] == '"' {
            return Some(i + 1);
        } else if text[i] == '\\' {
            if i + 1 < text.len() && text[i + 1] != '\n' {
                i += 2;
            } else {
                return None;
            }
        } else {
            i += 1;
        }
    }
    None
}

fn skip_sign(text: &Vec<char>, at: usize) -> (r: usize)
    requires
        at <= text@.len(),
    ensures
        r == after_sign(text@, at as int),
        at <= r <= text@.len(),
{
    if at < text.len() && text[at] == '-' {
        at + 1
    } else {
        at
    }
}

fn scan_float(text: &Vec<char>, at: usize) -> (r: Option<usize>)
    requires
        at < text@.len(),
    ensures
        r is Some <==> float_end(text@, at as int) is Some,
        r matches Some(end) ==> end == float_end(text@, at as int).unwrap() && at < end
            <= text@.len(),
{
    let start = skip_sign(text, at);
    let point = scan_digits(text, start);
    if point < text.len() && text[point] == '.' {
        let end = scan_digits(text, point + 1);
        if point > start || end > point + 1 {
            Some(end)
        } else {
            None
        }
    } else {
        None
    }
}

/// A longer run of digits stands for no smaller number.
proof fn lemma_digits_value_grows(digits: Seq<char>, upto: int)
    requires
        0 <= upto <= digits.len(),
        forall|i: int| 0 <= i < digits.len() ==> is_digit(#[trigger] digits[i]),
    ensures
        0 <= digits_value(digits.take(upto)) <= digits_value(digits),
    decreases digits.len() - upto,
{
    lemma_digits_value_is_natural(digits.take(upto));
    if upto < digits.len() {
        assert(digits.take(upto + 1).drop_last() =~= digits.take(upto));
        lemma_digits_value_grows(digits, upto + 1);
    } else {
        assert(digits.take(upto) =~= digits);
    }
}

proof fn lemma_digits_value_is_natural(digits: Seq<char>)
    requires
        forall|i: int| 0 <= i < digits.len() ==> is_digit(#[trigger] digits[i]),
    ensures
        0 <= digits_value(digits),
    decreases digits.len(),
{
    if digits.len() > 0 {
        lemma_digits_value_is_natural(digits.drop_last());
    }
}

/// The token of the integer literal from `at` to `end`.
fn integer_token(text: &Vec<char>, at: usize, end: usize) -> (r: Scanned)
    requires
        at < text@.len(),
        integer_end(text@, at as int) == Some(end as int),
        end <= text@.len(),
    ensures
        r@ == integer_mark(text@, at as int, end as int),
{
    let start = skip_sign(text, at);
    let ghost digits = text@.subrange(start as int, end as int);
    proof {
        assert forall|i: int| 0 <= i < digits.len() implies is_digit(#[trigger] digits[i]) by {
            lemma_digits_run(text@, start as int, start + i);
        }
    }
    let mut acc: u64 = 0;
    let mut i: usize = start;
    assert(digits.take(0) =~= Seq::empty());
    while i < end
        invariant
            start <= i <= end <= text@.len(),
            start == after_sign(text@, at as int),
            digits == text@.subrange(start as int, end as int),
            forall|j: int| 0 <= j < digits.len() ==> is_digit(#[trigger] digits[j]),
            acc == digits_value(digits.take(i - start)),
            acc <= 0x8000_0000_0000_0000,
        decreases end - i,
    {
        let c = text[i];
        assert(c == digits[i - start]);
        assert(is_digit(c));
        let d = (c as u32 - 48) as u64;
        let wide: u128 = (acc as u128) * 10 + d as u128;
        proof {
            assert(digits.take(i - start + 1).drop_last() =~= digits.take(i - start));
            assert(digits.take(i - start + 1).last() == c);
            assert(wide == digits_value(digits.take(i - start + 1)));
        }
        if wide > 0x8000_0000_0000_0000 {
            proof {
                lemma_digits_value_grows(digits, i - start + 1);
                assert(digits_value(digits) > 0x8000_0000_0000_0000);
                assert(start == after_sign(text@, at as int));
            }
            return Scanned::Token(ControlToken::ERROR(LexerError("Syntax Error")));
        }
        acc = wide as u64;
        i += 1;
    }
    assert(digits.take(end - start) =~= digits);
    if start > at {
        if acc == 0x8000_0000_0000_0000 {
            Scanned::Token(ControlToken::INTEGER(i64::MIN))
        } else {
            Scanned::Token(ControlToken::INTEGER(-(acc as i64)))
        }
    } else if acc == 0x8000_0000_0000_0000 {
        Scanned::Token(ControlToken::ERROR(LexerError("Syntax Error")))
    } else {
        Scanned::Token(ControlToken::INTEGER(acc as i64))
    }
}

/// Every character before the end of a run of digits is a digit.
proof fn lemma_digits_run(text: Seq<char>, at: int, i: int)
    requires
        0 <= at <= i < digits_end(text, at),
    ensures
        i < text.len(),
        is_digit(text[i]),
    decreases text.len() - at,
{
    if 0 <= at < text.len() && is_digit(text[at]) {
        if i > at {
            lemma_digits_run(text, at + 1, i);
        }
    }
}

/// The token that starts at `at`, and the place after it.
fn token(code: &str, text: &Vec<char>, at: usize) -> (r: (Scanned, usize))
    requires
        text@ == code@,
        at < text@.len(),
    ensures
        (r.0@, r.1 as int) == token_at(text@, at as int),
        at < r.1 <= text@.len(),
{
    let n = text.len();
    let c = text[at];
    if c == '(' {
        return (Scanned::Token(ControlToken::LPAREN), at + 1);
    }
    if c == ')' {
        return (Scanned::Token(ControlToken::RPAREN), at + 1);
    }
    if c == '\'' {
        return (Scanned::Token(ControlToken::QUOTE), at + 1);
    }
    if let Some(end) = scan_float(text, at) {
        return (Scanned::Float(piece(code, at, end)), end);
    }
    let start = skip_sign(text, at);
    let digits = scan_digits(text, start);
    if digits > start {
        return (integer_token(text, at, digits), digits);
    }
    if space(c) {
        return (Scanned::Token(ControlToken::WHITESPACE), at + 1);
    }
    if c == '"' {
        if let Some(end) = scan_string(text, at + 1) {
            return (Scanned::Token(ControlToken::STRING(piece(code, at + 1, end - 1))), end);
        }
    }
    if c == ';' || (at == 0 && (c == '#' || c == '!')) {
        let end = scan_line(text, at + 1);
        assert(line_end(text@, at as int) == line_end(text@, at + 1));
        return (Scanned::Token(ControlToken::COMMENT), end);
    }
    if !delimiter(c) && c != '.' {
        let end = scan_symbol(text, at + 1);
        return (Scanned::Token(ControlToken::SYMBOL(piece(code, at, end))), end);
    }
    let end = scan_line(text, at + 1);
    (Scanned::Token(ControlToken::ERROR(LexerError("Syntax Error"))), end)
}

/// The characters of a piece of text, in order.
fn chars_of(code: &str) -> (r: Vec<char>)
    ensures
        r@ == code@,
{
    let mut out: Vec<char> = Vec::new();
    for c in iter: code.chars()
        invariant
            iter.seq() == code@,
            out@ == iter.seq().take(iter.index() as int),
    {
        out.push(c);
        assert(out@ =~= iter.seq().take(iter.index() + 1));
    }
    assert(out@ =~= code@);
    out
}

/// The piece of `code` from the character at `from` up to the one at `to`.
fn piece(code: &str, from: usize, to: usize) -> (r: String)
    requires
        from <= to <= code@.len(),
    ensures
        r@ == code@.subrange(from as int, to as int),
{
    code.substring_char(from, to).to_owned()
}

/// The tokens of the text, in order and without white space and comments.
pub fn lex(code: &str) -> (r: Vec<Scanned>)
    ensures
        marks(r@) == lex_from(code@, 0),
{
    let text = chars_of(code);
    let mut out: Vec<Scanned> = Vec::new();
    let mut at: usize = 0;
    assert(marks(out@) =~= Seq::empty());
    while at < text.len()
        invariant
            text@ == code@,
            at <= text@.len(),
            lex_from(code@, 0) == marks(out@) + lex_from(code@, at as int),
        decreases text@.len() - at,
    {
        let (found, end) = token(code, &text, at);
        let ghost before = marks(out@);
        match &found {
            Scanned::Token(ControlToken::WHITESPACE) => {},
            Scanned::Token(ControlToken::COMMENT) => {},
            _ => {
                out.push(found);
                proof {
                    assert(marks(out@) =~= before.push(found@));
                    assert(before.push(found@) + lex_from(code@, end as int) =~= before + (
                    seq![found@] + lex_from(code@, end as int)));
                }
            },
        }
        at = end;
    }
    assert(marks(out@) + lex_from(code@, at as int) =~= marks(out@));
    out
}

/// A token ends after where it starts.
pub proof fn lemma_token_advances(text: Seq<char>, at: int)
    requires
        0 <= at < text.len(),
    ensures
        at < token_at(text, at).1 <= text.len(),
{
    lemma_run_bounds(text, after_sign(text, at));
    if digits_end(text, after_sign(text, at)) < text.len() {
        lemma_run_bounds(text, digits_end(text, after_sign(text, at)) + 1);
    }
    lemma_run_bounds(text, at + 1);
    lemma_string_bounds(text, at + 1);
    if text[at] != '\n' {
        assert(line_end(text, at) == line_end(text, at + 1));
    }
}

/// A run ends at or after where it starts, and within the text.
proof fn lemma_run_bounds(text: Seq<char>, at: int)
    requires
        0 <= at <= text.len(),
    ensures
        at <= digits_end(text, at) <= text.len(),
        at <= symbol_end(text, at) <= text.len(),
        at <= line_end(text, at) <= text.len(),
    decreases text.len() - at,
{
    if at < text.len() {
        lemma_run_bounds(text, at + 1);
    }
}

/// A string ends after where its inside starts, and within the text.
proof fn lemma_string_bounds(text: Seq<char>, at: int)
    requires
        0 <= at <= text.len(),
    ensures
        string_end(text, at) matches Some(end) ==> at < end <= text.len(),
    decreases text.len() - at,
{
    if at < text.len() {
        if text[at] == '"' {
        } else if text[at] == '\\' {
            if at + 1 < text.len() && text[at + 1] != '\n' {
                lemma_string_bounds(text, at + 2);
            }
        } else {
            lemma_string_bounds(text, at + 1);
        }
    }
}

/// The tokens of a text hold neither white space nor comments.
pub proof fn lemma_lex_drops_filler(text: Seq<char>, at: int, i: int)
    requires
        0 <= i < lex_from(text, at).len(),
    ensures
        !lex_from(text, at)[i].is_filler(),
    decreases text.len() - at,
{
    if 0 <= at < text.len() {
        let (mark, end) = token_at(text, at);
        if at < end <= text.len() {
            if mark.is_filler() {
                lemma_lex_drops_filler(text, end, i);
            } else if i > 0 {
                lemma_lex_drops_filler(text, end, i - 1);
            }
        }
    }
}

/// The text without a character has no token.
pub proof fn lemma_lex_of_nothing()
    ensures
        lex_from(Seq::<char>::empty(), 0) == Seq::<Mark>::empty(),
{
}

/// The digits of a natural number are digits, and stand for that number.
proof fn lemma_digits_read_back(n: nat)
    ensures
        digits(n).len() > 0,
        forall|i: int| 0 <= i < digits(n).len() ==> is_digit(#[trigger] digits(n)[i]),
        digits_value(digits(n)) == n,
    decreases n,
{
    let written = digits(n);
    assert(is_digit(digit_char((n % 10) as int)));
    assert(digit_char((n % 10) as int) as u32 - 48 == n % 10);
    if n < 10 {
        assert(written.drop_last() =~= Seq::empty());
        assert(digits_value(written.drop_last()) == 0);
    } else {
        lemma_digits_read_back(n / 10);
        assert(written.drop_last() =~= digits(n / 10));
    }
}

/// A run of digits up to the end of the text ends there.
proof fn lemma_digits_to_the_end(text: Seq<char>, at: int)
    requires
        0 <= at <= text.len(),
        forall|i: int| at <= i < text.len() ==> is_digit(#[trigger] text[i]),
    ensures
        digits_end(text, at) == text.len(),
    decreases text.len() - at,
{
    if at < text.len() {
        lemma_digits_to_the_end(text, at + 1);
    }
}

/// The decimal form of an integer is read as one token, that integer.
pub proof fn lemma_decimal_read_back(i: i64)
    ensures
        lex_from(decimal(i as int), 0) == seq![Mark::Token(Lexeme::Integer(i))],
{
    let text = decimal(i as int);
    let magnitude: nat = if i < 0 {
        (-i) as nat
    } else {
        i as nat
    };
    lemma_digits_read_back(magnitude);
    let start: int = if i < 0 {
        1
    } else {
        0
    };
    assert(text.len() == start + digits(magnitude).len());
    assert forall|k: int| start <= k < text.len() implies is_digit(#[trigger] text[k]) by {
        assert(text[k] == digits(magnitude)[k - start]);
    }
    assert(text.subrange(start, text.len() as int) =~= digits(magnitude));
    assert(is_digit(text[start]));
    assert(after_sign(text, 0) == start);
    lemma_digits_to_the_end(text, start);
    assert(float_end(text, 0) is None);
    assert(integer_end(text, 0) == Some(text.len() as int));
    assert(integer_mark(text, 0, text.len() as int) == Mark::Token(Lexeme::Integer(i)));
    assert(token_at(text, 0) == (Mark::Token(Lexeme::Integer(i)), text.len() as int));
    assert(lex_from(text, text.len() as int) =~= Seq::empty());
    assert(lex_from(text, 0) =~= seq![Mark::Token(Lexeme::Integer(i))]);
}

} // verus!
