//! The reader: from the tokens of a program to its forms.

use crate::errors::{LexerError, ParserError};
use crate::types::{views, Atom, Cons, ConsValue, Sexp};
use vstd::prelude::*;

verus! {

/// A token of the source text.
#[derive(Debug, PartialEq)]
pub enum ControlToken {
    LPAREN,
    RPAREN,
    QUOTE,
    /// A double, as the bits of its IEEE 754 encoding.
    FLOAT(u64),
    INTEGER(i64),
    /// The characters of a string literal, without its quotes.
    STRING(String),
    SYMBOL(String),
    WHITESPACE,
    COMMENT,
    /// A stretch of text that is no token.
    ERROR(LexerError),
}

/// Mathematical model of a [`ControlToken`].
pub enum Lexeme {
    Open,
    Close,
    Quote,
    Float(u64),
    Integer(i64),
    Text(Seq<char>),
    Symbol(Seq<char>),
    Blank,
    Comment,
    Error(Seq<char>),
}

impl View for ControlToken {
    type V = Lexeme;

    open spec fn view(&self) -> Lexeme {
        match self {
            ControlToken::LPAREN => Lexeme::Open,
            ControlToken::RPAREN => Lexeme::Close,
            ControlToken::QUOTE => Lexeme::Quote,
            ControlToken::FLOAT(bits) => Lexeme::Float(*bits),
            ControlToken::INTEGER(i) => Lexeme::Integer(*i),
            ControlToken::STRING(s) => Lexeme::Text(s@),
            ControlToken::SYMBOL(s) => Lexeme::Symbol(s@),
            ControlToken::WHITESPACE => Lexeme::Blank,
            ControlToken::COMMENT => Lexeme::Comment,
            ControlToken::ERROR(e) => Lexeme::Error(e.0@),
        }
    }
}

/// The models of the tokens in `tokens`, in order.
pub open spec fn lexemes(tokens: Seq<ControlToken>) -> Seq<Lexeme> {
    Seq::new(tokens.len(), |i: int| tokens[i]@)
}

impl Lexeme {
    /// Whether the token separates others and stands for nothing itself.
    pub open spec fn is_filler(self) -> bool {
        self is Blank || self is Comment
    }
}

/// The text of the error for the end of the tokens where a form is due.
pub open spec fn unexpected_end() -> Seq<char> {
    "Unexpected end of input"@
}

/// The text of the error for a closing bracket that closes nothing.
pub open spec fn unmatched_close() -> Seq<char> {
    "Unmatched RPAREN"@
}

/// The text of the error for an opening bracket that is never closed.
pub open spec fn unmatched_open() -> Seq<char> {
    "Unmatched LPAREN"@
}

/// The text of the error for a stretch of text that is no token.
pub open spec fn syntax_error() -> Seq<char> {
    "Syntax Error"@
}

/// The form that starts at the token at `at`, and the place after it.
///
/// An integer, a double, a string and a symbol are atoms. An opening
/// bracket starts a list, which `read_rest` reads. An apostrophe quotes the
/// form after it; before a pair of brackets with nothing between them it
/// makes the written form of the empty list, which is read as the empty
/// list. Whitespace and comments before the form are passed over.
pub open spec fn read_form(tokens: Seq<Lexeme>, at: int) -> Result<(Sexp, int), Seq<char>>
    decreases tokens.len() - at, 0nat,
{
    if at < 0 || at >= tokens.len() {
        Err(unexpected_end())
    } else {
        match tokens[at] {
            Lexeme::Blank => read_form(tokens, at + 1),
            Lexeme::Comment => read_form(tokens, at + 1),
            Lexeme::Integer(i) => Ok((Sexp::Atom(Atom::Int(i)), at + 1)),
            Lexeme::Float(bits) => Ok((Sexp::Atom(Atom::Float(bits)), at + 1)),
            Lexeme::Text(s) => Ok((Sexp::Atom(Atom::Text(s)), at + 1)),
            Lexeme::Symbol(s) => Ok((Sexp::Atom(Atom::Symbol(s)), at + 1)),
            Lexeme::Quote => match read_form(tokens, at + 1) {
                Ok((form, next)) => {
                    if form == Sexp::nil() && opens_at(tokens, at + 1) {
                        Ok((form, next))
                    } else {
                        Ok((Sexp::Quoted(Box::new(form)), next))
                    }
                },
                Err(e) => Err(e),
            },
            Lexeme::Open => read_rest(tokens, at + 1),
            Lexeme::Close => Err(unmatched_close()),
            Lexeme::Error(_) => Err(syntax_error()),
        }
    }
}

/// Whether the first token from `at` on that is neither whitespace nor a
/// comment is an opening bracket.
pub open spec fn opens_at(tokens: Seq<Lexeme>, at: int) -> bool {
    let start = skip_filler(tokens, at);
    0 <= start < tokens.len() && tokens[start] is Open
}

/// The list of the forms from the token at `at` up to the closing bracket
/// of the list, and the place after that bracket. The list without a form
/// is the empty list. Where the tokens end before the bracket is closed,
/// the error is that of the bracket left open.
pub open spec fn read_rest(tokens: Seq<Lexeme>, at: int) -> Result<(Sexp, int), Seq<char>>
    decreases tokens.len() - at, 1nat,
{
    if at < 0 || at >= tokens.len() {
        Err(unmatched_open())
    } else if tokens[at].is_filler() {
        read_rest(tokens, at + 1)
    } else if tokens[at] is Close {
        Ok((Sexp::nil(), at + 1))
    } else {
        match read_form(tokens, at) {
            Err(e) => Err(
                if e == unexpected_end() {
                    unmatched_open()
                } else {
                    e
                },
            ),
            Ok((head, next)) => {
                if next <= at || next > tokens.len() {
                    Err(unexpected_end())
                } else {
                    match read_rest(tokens, next) {
                        Ok((tail, end)) => Ok((Sexp::cons(head, tail), end)),
                        Err(e) => Err(e),
                    }
                }
            },
        }
    }
}

/// The first place from `at` on that holds neither whitespace nor a
/// comment; the end of the tokens where there is none.
pub open spec fn skip_filler(tokens: Seq<Lexeme>, at: int) -> int
    decreases tokens.len() - at,
{
    if at < 0 || at >= tokens.len() {
        at
    } else if tokens[at].is_filler() {
        skip_filler(tokens, at + 1)
    } else {
        at
    }
}

/// The forms from the token at `at` to the end of the tokens.
pub open spec fn read_all(tokens: Seq<Lexeme>, at: int) -> Result<Seq<Sexp>, Seq<char>>
    decreases tokens.len() - at,
{
    let start = skip_filler(tokens, at);
    if start < 0 || start >= tokens.len() || start < at {
        Ok(Seq::empty())
    } else {
        match read_form(tokens, start) {
            Err(e) => Err(e),
            Ok((form, next)) => {
                if next <= start || next > tokens.len() {
                    Err(unexpected_end())
                } else {
                    match read_all(tokens, next) {
                        Ok(forms) => Ok(seq![form] + forms),
                        Err(e) => Err(e),
                    }
                }
            },
        }
    }
}

/// The model of the result of reading one form.
pub open spec fn read_view(r: Result<(Cons, usize), ParserError>) -> Result<(Sexp, int), Seq<char>> {
    match r {
        Ok((form, next)) => Ok((form@, next as int)),
        Err(e) => Err(e.0@),
    }
}

/// The model of the result of reading all forms.
pub open spec fn parse_view(r: Result<Vec<Cons>, ParserError>) -> Result<Seq<Sexp>, Seq<char>> {
    match r {
        Ok(forms) => Ok(views(forms@)),
        Err(e) => Err(e.0@),
    }
}

/// A form that was read ends after where it starts, and within the tokens.
pub proof fn lemma_read_form_advances(tokens: Seq<Lexeme>, at: int)
    requires
        0 <= at,
    ensures
        read_form(tokens, at) matches Ok((_, next)) ==> at < next <= tokens.len(),
    decreases tokens.len() - at, 0nat,
{
    if at < tokens.len() {
        match tokens[at] {
            Lexeme::Blank => lemma_read_form_advances(tokens, at + 1),
            Lexeme::Comment => lemma_read_form_advances(tokens, at + 1),
            Lexeme::Quote => lemma_read_form_advances(tokens, at + 1),
            Lexeme::Open => lemma_read_rest_advances(tokens, at + 1),
            _ => {},
        }
    }
}

/// A list that was read ends after where it starts, and within the tokens.
pub proof fn lemma_read_rest_advances(tokens: Seq<Lexeme>, at: int)
    requires
        0 <= at,
    ensures
        read_rest(tokens, at) matches Ok((_, end)) ==> at < end <= tokens.len(),
    decreases tokens.len() - at, 1nat,
{
    if at < tokens.len() {
        if tokens[at].is_filler() {
            lemma_read_rest_advances(tokens, at + 1);
        } else if !(tokens[at] is Close) {
            lemma_read_form_advances(tokens, at);
            if let Ok((_, next)) = read_form(tokens, at) {
                lemma_read_rest_advances(tokens, next);
            }
        }
    }
}

/// The list of `items` before `tail`.
pub open spec fn list_onto(items: Seq<Sexp>, tail: Sexp) -> Sexp
    decreases items.len(),
{
    if items.len() == 0 {
        tail
    } else {
        Sexp::cons(items[0], list_onto(items.drop_first(), tail))
    }
}

proof fn lemma_list_onto_push(items: Seq<Sexp>, last: Sexp, tail: Sexp)
    ensures
        list_onto(items.push(last), tail) == list_onto(items, Sexp::cons(last, tail)),
    decreases items.len(),
{
    let longer = items.push(last);
    if items.len() == 0 {
        assert(longer.drop_first() =~= Seq::empty());
        assert(list_onto(longer.drop_first(), tail) == tail);
        assert(list_onto(longer, tail) == Sexp::cons(longer[0], list_onto(longer.drop_first(), tail)));
    } else {
        assert(longer.drop_first() =~= items.drop_first().push(last));
        lemma_list_onto_push(items.drop_first(), last, tail);
        assert(list_onto(longer, tail) == Sexp::cons(longer[0], list_onto(longer.drop_first(), tail)));
    }
}

proof fn lemma_list_onto_nil(items: Seq<Sexp>)
    ensures
        list_onto(items, Sexp::nil()) == Sexp::list(items),
    decreases items.len(),
{
    if items.len() > 0 {
        lemma_list_onto_nil(items.drop_first());
    }
}

/// The result of reading a list after `items` were read of it.
spec fn after_items(items: Seq<Sexp>, r: Result<(Sexp, int), Seq<char>>) -> Result<
    (Sexp, int),
    Seq<char>,
> {
    match r {
        Ok((tail, end)) => Ok((list_onto(items, tail), end)),
        Err(e) => Err(e),
    }
}

/// The result of reading all forms after `forms` were read.
spec fn after_forms(forms: Seq<Sexp>, r: Result<Seq<Sexp>, Seq<char>>) -> Result<
    Seq<Sexp>,
    Seq<char>,
> {
    match r {
        Ok(more) => Ok(forms + more),
        Err(e) => Err(e),
    }
}

/// Whether an error is the one for the end of the tokens where a form is
/// due.
fn is_unexpected_end(e: &ParserError) -> (r: bool)
    ensures
        r == (e.0@ == unexpected_end()),
{
    crate::types::same_str(e.0, "Unexpected end of input")
}

/// Whether the first token from `at` on that is neither whitespace nor a
/// comment is an opening bracket.
fn opens(tokens: &Vec<ControlToken>, at: usize) -> (r: bool)
    requires
        at <= tokens@.len(),
    ensures
        r == opens_at(lexemes(tokens@), at as int),
{
    let ghost all = lexemes(tokens@);
    let mut here: usize = at;
    while here < tokens.len()
        invariant
            at <= here <= tokens@.len(),
            all == lexemes(tokens@),
            skip_filler(all, at as int) == skip_filler(all, here as int),
        decreases tokens@.len() - here,
    {
        match &tokens[here] {
            ControlToken::WHITESPACE => {
                here += 1;
            },
            ControlToken::COMMENT => {
                here += 1;
            },
            ControlToken::LPAREN => {
                return true;
            },
            _ => {
                return false;
            },
        }
    }
    false
}

/// The form that starts at the token at `at`, and the place after it.
fn form(tokens: &Vec<ControlToken>, at: usize) -> (r: Result<(Cons, usize), ParserError>)
    ensures
        read_view(r) == read_form(lexemes(tokens@), at as int),
        r matches Ok((_, next)) ==> at < next <= tokens@.len(),
    decreases tokens@.len() - at, 0nat,
{
    proof {
        lemma_read_form_advances(lexemes(tokens@), at as int);
    }
    if at >= tokens.len() {
        return Err(ParserError("Unexpected end of input"));
    }
    match &tokens[at] {
        ControlToken::WHITESPACE => form(tokens, at + 1),
        ControlToken::COMMENT => form(tokens, at + 1),
        ControlToken::INTEGER(i) => Ok((Cons::Value(ConsValue::Int(*i)), at + 1)),
        ControlToken::FLOAT(bits) => Ok((Cons::Value(ConsValue::Float(*bits)), at + 1)),
        ControlToken::STRING(s) => Ok((Cons::Value(ConsValue::String(s.clone())), at + 1)),
        ControlToken::SYMBOL(s) => Ok((Cons::Value(ConsValue::Symbol(s.clone())), at + 1)),
        ControlToken::QUOTE => match form(tokens, at + 1) {
            Ok((inner, next)) => {
                if inner.is_nil() && opens(tokens, at + 1) {
                    Ok((inner, next))
                } else {
                    Ok((Cons::Quoted(std::sync::Arc::new(inner)), next))
                }
            },
            Err(e) => Err(e),
        },
        ControlToken::LPAREN => rest(tokens, at + 1),
        ControlToken::RPAREN => Err(ParserError("Unmatched RPAREN")),
        ControlToken::ERROR(_) => Err(ParserError("Syntax Error")),
    }
}

/// The list of the forms from the token at `at` up to the closing bracket
/// of the list, and the place after that bracket.
fn rest(tokens: &Vec<ControlToken>, at: usize) -> (r: Result<(Cons, usize), ParserError>)
    ensures
        read_view(r) == read_rest(lexemes(tokens@), at as int),
        r matches Ok((_, end)) ==> at < end <= tokens@.len(),
    decreases tokens@.len() - at, 1nat,
{
    let ghost all = lexemes(tokens@);
    let mut items: Vec<Cons> = Vec::new();
    let mut here: usize = at;
    assert(views(items@) =~= Seq::empty());
    loop
        invariant
            at <= here,
            all == lexemes(tokens@),
            read_rest(all, at as int) == after_items(views(items@), read_rest(all, here as int)),
        decreases tokens@.len() - here,
    {
        if here >= tokens.len() {
            return Err(ParserError("Unmatched LPAREN"));
        }
        match &tokens[here] {
            ControlToken::WHITESPACE => {
                here += 1;
            },
            ControlToken::COMMENT => {
                here += 1;
            },
            ControlToken::RPAREN => {
                proof {
                    lemma_list_onto_nil(views(items@));
                }
                return Ok((Cons::from_iter(items), here + 1));
            },
            _ => {
                match form(tokens, here) {
                    Err(e) => {
                        if is_unexpected_end(&e) {
                            return Err(ParserError("Unmatched LPAREN"));
                        }
                        return Err(e);
                    },
                    Ok((head, next)) => {
                        proof {
                            let ghost before = views(items@);
                            lemma_read_rest_advances(all, next as int);
                            match read_rest(all, next as int) {
                                Ok((tail, _)) => {
                                    lemma_list_onto_push(before, head@, tail);
                                },
                                Err(_) => {},
                            }
                            assert(views(items@.push(head)) =~= before.push(head@));
                        }
                        items.push(head);
                        here = next;
                    },
                }
            },
        }
    }
}

/// The forms that the tokens stand for, in order.
///
/// Whitespace and comments separate and are passed over. A closing bracket
/// without its opening one, an opening bracket without its closing one, an
/// apostrophe without a form after it, and a stretch of text that is no
/// token are errors; the first of them in the order of the tokens is the
/// result.
pub fn parse(tokens: Vec<ControlToken>) -> (r: Result<Vec<Cons>, ParserError>)
    ensures
        parse_view(r) == read_all(lexemes(tokens@), 0),
{
    let ghost all = lexemes(tokens@);
    let mut forms: Vec<Cons> = Vec::new();
    let mut here: usize = 0;
    assert(views(forms@) =~= Seq::empty());
    loop
        invariant
            all == lexemes(tokens@),
            read_all(all, 0) == after_forms(views(forms@), read_all(all, here as int)),
        decreases tokens@.len() - here,
    {
        if here >= tokens.len() {
            assert(views(forms@) + Seq::<Sexp>::empty() =~= views(forms@));
            return Ok(forms);
        }
        match &tokens[here] {
            ControlToken::WHITESPACE => {
                proof {
                    lemma_read_all_skips(all, here as int);
                }
                here += 1;
            },
            ControlToken::COMMENT => {
                proof {
                    lemma_read_all_skips(all, here as int);
                }
                here += 1;
            },
            _ => {
                assert(skip_filler(all, here as int) == here);
                match form(&tokens, here) {
                    Err(e) => {
                        return Err(e);
                    },
                    Ok((found, next)) => {
                        proof {
                            let ghost before = views(forms@);
                            assert(views(forms@.push(found)) =~= before.push(found@));
                            match read_all(all, next as int) {
                                Ok(more) => {
                                    assert(before.push(found@) + more =~= before + (seq![found@]
                                        + more));
                                },
                                Err(_) => {},
                            }
                        }
                        forms.push(found);
                        here = next;
                    },
                }
            },
        }
    }
}

/// Whitespace and comments before the forms change nothing.
proof fn lemma_read_all_skips(tokens: Seq<Lexeme>, at: int)
    requires
        0 <= at < tokens.len(),
        tokens[at].is_filler(),
    ensures
        read_all(tokens, at) == read_all(tokens, at + 1),
{
    lemma_skip_filler_bounds(tokens, at + 1);
    assert(skip_filler(tokens, at) == skip_filler(tokens, at + 1));
}

/// Skipping goes forward and stops within the tokens.
proof fn lemma_skip_filler_bounds(tokens: Seq<Lexeme>, at: int)
    requires
        0 <= at <= tokens.len(),
    ensures
        at <= skip_filler(tokens, at) <= tokens.len(),
    decreases tokens.len() - at,
{
    if at < tokens.len() && tokens[at].is_filler() {
        lemma_skip_filler_bounds(tokens, at + 1);
    }
}

/// Whether a form can be written down in tokens: its atoms are integers,
/// doubles, strings, symbols and the empty list, and its lists are proper.
pub open spec fn readable(form: Sexp) -> bool
    decreases form, 1nat,
{
    match form {
        Sexp::Atom(Atom::Nil) => true,
        Sexp::Atom(Atom::Int(_)) => true,
        Sexp::Atom(Atom::Float(_)) => true,
        Sexp::Atom(Atom::Text(_)) => true,
        Sexp::Atom(Atom::Symbol(_)) => true,
        Sexp::Atom(_) => false,
        Sexp::Quoted(inner) => readable(*inner),
        Sexp::Pair(_, _) => readable_tail(form),
    }
}

/// Whether the rest of a list can be written down in tokens.
pub open spec fn readable_tail(form: Sexp) -> bool
    decreases form, 0nat,
{
    match form {
        Sexp::Pair(head, tail) => readable(*head) && readable_tail(*tail),
        _ => form == Sexp::nil(),
    }
}

/// The tokens of a form: a number, a string and a symbol are one token,
/// the empty list is an apostrophe and a pair of brackets, a quoted form an
/// apostrophe and the tokens of the form, and a list the tokens of its
/// elements between brackets.
pub open spec fn tokens_of(form: Sexp) -> Seq<Lexeme>
    decreases form, 1nat,
{
    match form {
        Sexp::Atom(Atom::Int(i)) => seq![Lexeme::Integer(i)],
        Sexp::Atom(Atom::Float(bits)) => seq![Lexeme::Float(bits)],
        Sexp::Atom(Atom::Text(s)) => seq![Lexeme::Text(s)],
        Sexp::Atom(Atom::Symbol(s)) => seq![Lexeme::Symbol(s)],
        Sexp::Atom(_) => seq![Lexeme::Quote, Lexeme::Open, Lexeme::Close],
        Sexp::Quoted(inner) => seq![Lexeme::Quote] + tokens_of(*inner),
        Sexp::Pair(_, _) => seq![Lexeme::Open] + tokens_of_tail(form),
    }
}

/// The tokens of the rest of a list, up to and with its closing bracket.
pub open spec fn tokens_of_tail(form: Sexp) -> Seq<Lexeme>
    decreases form, 0nat,
{
    match form {
        Sexp::Pair(head, tail) => tokens_of(*head) + tokens_of_tail(*tail),
        _ => seq![Lexeme::Close],
    }
}

/// The tokens of a run of forms, one after the other.
pub open spec fn tokens_of_all(forms: Seq<Sexp>) -> Seq<Lexeme>
    decreases forms.len(),
{
    if forms.len() == 0 {
        Seq::empty()
    } else {
        tokens_of(forms[0]) + tokens_of_all(forms.drop_first())
    }
}

/// The tokens of a form start with a token that stands for something and
/// closes nothing.
proof fn lemma_tokens_of_starts(form: Sexp)
    ensures
        tokens_of(form).len() > 0,
        !tokens_of(form)[0].is_filler(),
        !(tokens_of(form)[0] is Close),
        !(tokens_of(form)[0] is Error),
{
}

/// Reading gives back a form that was written down in tokens: where the
/// tokens from `at` on start with the tokens of a form, that form is read
/// there, and the reading ends right after its tokens.
pub proof fn lemma_read_back(tokens: Seq<Lexeme>, at: int, form: Sexp)
    requires
        readable(form),
        0 <= at,
        at + tokens_of(form).len() <= tokens.len(),
        tokens.subrange(at, at + tokens_of(form).len()) == tokens_of(form),
    ensures
        read_form(tokens, at) == Ok::<(Sexp, int), Seq<char>>(
            (form, at + tokens_of(form).len()),
        ),
    decreases form, 1nat,
{
    let written = tokens_of(form);
    let n = written.len() as int;
    lemma_tokens_of_starts(form);
    assert(tokens[at] == tokens.subrange(at, at + n)[0]);
    match form {
        Sexp::Quoted(inner) => {
            let part = tokens_of(*inner);
            assert(tokens.subrange(at + 1, at + 1 + part.len()) =~= part) by {
                assert forall|i: int| 0 <= i < part.len() implies tokens[at + 1 + i] == part[i] by {
                    assert(tokens[at + 1 + i] == tokens.subrange(at, at + n)[i + 1]);
                }
            }
            lemma_read_back(tokens, at + 1, *inner);
            lemma_tokens_of_starts(*inner);
            assert(tokens[at + 1] == part[0]);
            assert(skip_filler(tokens, at + 1) == at + 1);
            if *inner == Sexp::nil() {
                assert(part[0] is Quote);
            }
        },
        Sexp::Pair(_, _) => {
            let part = tokens_of_tail(form);
            assert(tokens.subrange(at + 1, at + 1 + part.len()) =~= part) by {
                assert forall|i: int| 0 <= i < part.len() implies tokens[at + 1 + i] == part[i] by {
                    assert(tokens[at + 1 + i] == tokens.subrange(at, at + n)[i + 1]);
                }
            }
            lemma_read_back_tail(tokens, at + 1, form);
        },
        Sexp::Atom(Atom::Nil) => {
            assert(tokens[at + 1] == tokens.subrange(at, at + n)[1]);
            assert(tokens[at + 2] == tokens.subrange(at, at + n)[2]);
            assert(read_rest(tokens, at + 2) == Ok::<(Sexp, int), Seq<char>>(
                (Sexp::nil(), at + 3),
            ));
            assert(read_form(tokens, at + 1) == Ok::<(Sexp, int), Seq<char>>(
                (Sexp::nil(), at + 3),
            ));
            assert(skip_filler(tokens, at + 1) == at + 1);
        },
        _ => {},
    }
}

/// Reading gives back the rest of a list that was written down in tokens.
pub proof fn lemma_read_back_tail(tokens: Seq<Lexeme>, at: int, form: Sexp)
    requires
        readable_tail(form),
        0 <= at,
        at + tokens_of_tail(form).len() <= tokens.len(),
        tokens.subrange(at, at + tokens_of_tail(form).len()) == tokens_of_tail(form),
    ensures
        read_rest(tokens, at) == Ok::<(Sexp, int), Seq<char>>(
            (form, at + tokens_of_tail(form).len()),
        ),
    decreases form, 0nat,
{
    let written = tokens_of_tail(form);
    let n = written.len() as int;
    assert(n > 0) by {
        if let Sexp::Pair(head, _) = form {
            lemma_tokens_of_starts(*head);
        }
    }
    assert(tokens[at] == tokens.subrange(at, at + n)[0]);
    match form {
        Sexp::Pair(head, tail) => {
            let first = tokens_of(*head);
            let second = tokens_of_tail(*tail);
            lemma_tokens_of_starts(*head);
            assert(written[0] == first[0]);
            assert(tokens.subrange(at, at + first.len()) =~= first) by {
                assert forall|i: int| 0 <= i < first.len() implies tokens[at + i] == first[i] by {
                    assert(tokens[at + i] == tokens.subrange(at, at + n)[i]);
                }
            }
            assert(tokens.subrange(at + first.len(), at + n) =~= second) by {
                assert forall|i: int| 0 <= i < second.len() implies tokens[at + first.len() + i]
                    == second[i] by {
                    assert(tokens[at + first.len() + i] == tokens.subrange(at, at + n)[first.len()
                        + i]);
                }
            }
            lemma_read_back(tokens, at, *head);
            lemma_read_back_tail(tokens, at + first.len(), *tail);
        },
        _ => {},
    }
}

/// Reading gives back a run of forms that was written down in tokens.
pub proof fn lemma_read_back_all(tokens: Seq<Lexeme>, at: int, forms: Seq<Sexp>)
    requires
        forall|i: int| 0 <= i < forms.len() ==> readable(#[trigger] forms[i]),
        0 <= at,
        at + tokens_of_all(forms).len() == tokens.len(),
        tokens.subrange(at, tokens.len() as int) == tokens_of_all(forms),
    ensures
        read_all(tokens, at) == Ok::<Seq<Sexp>, Seq<char>>(forms),
    decreases forms.len(),
{
    let written = tokens_of_all(forms);
    if forms.len() == 0 {
        assert(skip_filler(tokens, at) == at);
        assert(forms =~= Seq::empty());
    } else {
        let first = tokens_of(forms[0]);
        let second = tokens_of_all(forms.drop_first());
        lemma_tokens_of_starts(forms[0]);
        assert(tokens[at] == tokens.subrange(at, tokens.len() as int)[0]);
        assert(written[0] == first[0]);
        assert(skip_filler(tokens, at) == at);
        assert(tokens.subrange(at, at + first.len()) =~= first) by {
            assert forall|i: int| 0 <= i < first.len() implies tokens[at + i] == first[i] by {
                assert(tokens[at + i] == tokens.subrange(at, tokens.len() as int)[i]);
            }
        }
        assert(tokens.subrange(at + first.len(), tokens.len() as int) =~= second) by {
            assert forall|i: int| 0 <= i < second.len() implies tokens[at + first.len() + i]
                == second[i] by {
                assert(tokens[at + first.len() + i] == tokens.subrange(
                    at,
                    tokens.len() as int,
                )[first.len() + i]);
            }
        }
        lemma_read_back(tokens, at, forms[0]);
        assert forall|i: int| 0 <= i < forms.drop_first().len() implies readable(
            #[trigger] forms.drop_first()[i],
        ) by {
            assert(forms.drop_first()[i] == forms[i + 1]);
        }
        lemma_read_back_all(tokens, at + first.len(), forms.drop_first());
        assert(seq![forms[0]] + forms.drop_first() =~= forms);
    }
}

/// What was written down in tokens is read back as it was.
pub proof fn lemma_parse_round_trip(forms: Seq<Sexp>)
    requires
        forall|i: int| 0 <= i < forms.len() ==> readable(#[trigger] forms[i]),
    ensures
        read_all(tokens_of_all(forms), 0) == Ok::<Seq<Sexp>, Seq<char>>(forms),
{
    let tokens = tokens_of_all(forms);
    assert(tokens.subrange(0, tokens.len() as int) =~= tokens);
    lemma_read_back_all(tokens, 0, forms);
}

} // verus!
