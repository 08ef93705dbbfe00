use boxr::errors::{LexerError, ParserError};
use boxr::parser::{parse, ControlToken};
use boxr::types::{Cons, ConsValue};
use std::sync::Arc;

fn num(i: i64) -> Cons {
    Cons::Value(ConsValue::Int(i))
}

fn sym(name: &str) -> Cons {
    Cons::Value(ConsValue::Symbol(name.to_string()))
}

fn symbol(name: &str) -> ControlToken {
    ControlToken::SYMBOL(name.to_string())
}

#[test]
fn no_tokens_are_no_forms() {
    assert_eq!(parse(vec![]), Ok(vec![]));
    assert_eq!(parse(vec![ControlToken::WHITESPACE, ControlToken::COMMENT]), Ok(vec![]));
}

#[test]
fn atoms_are_read() {
    let tokens = vec![
        ControlToken::INTEGER(123),
        ControlToken::FLOAT(123.456f64.to_bits()),
        ControlToken::STRING("123".to_string()),
        symbol("abc"),
    ];
    assert_eq!(
        parse(tokens),
        Ok(vec![
            num(123),
            Cons::Value(ConsValue::Float(123.456f64.to_bits())),
            Cons::Value(ConsValue::String("123".to_string())),
            sym("abc"),
        ])
    );
}

#[test]
fn lists_are_read() {
    let tokens = vec![
        ControlToken::LPAREN,
        ControlToken::INTEGER(123),
        ControlToken::WHITESPACE,
        ControlToken::INTEGER(456),
        ControlToken::RPAREN,
    ];
    assert_eq!(
        parse(tokens),
        Ok(vec![Cons::Cell(
            Arc::new(num(123)),
            Arc::new(Cons::Cell(Arc::new(num(456)), Arc::new(Cons::Value(ConsValue::NIL))))
        )])
    );
    assert_eq!(
        parse(vec![ControlToken::LPAREN, ControlToken::RPAREN]),
        Ok(vec![Cons::Value(ConsValue::NIL)])
    );
    assert_eq!(
        parse(vec![ControlToken::LPAREN, symbol("+"), ControlToken::RPAREN]),
        Ok(vec![Cons::from_iter(vec![sym("+")])])
    );
}

#[test]
fn nested_lists_and_several_forms_are_read() {
    let tokens = vec![
        ControlToken::LPAREN,
        symbol("define"),
        ControlToken::LPAREN,
        symbol("add"),
        symbol("a"),
        symbol("b"),
        ControlToken::RPAREN,
        ControlToken::LPAREN,
        symbol("+"),
        symbol("a"),
        symbol("b"),
        ControlToken::RPAREN,
        ControlToken::RPAREN,
        ControlToken::COMMENT,
        ControlToken::WHITESPACE,
        ControlToken::LPAREN,
        symbol("add"),
        ControlToken::INTEGER(1),
        ControlToken::LPAREN,
        ControlToken::RPAREN,
        ControlToken::RPAREN,
        ControlToken::WHITESPACE,
    ];
    assert_eq!(
        parse(tokens),
        Ok(vec![
            Cons::from_iter(vec![
                sym("define"),
                Cons::from_iter(vec![sym("add"), sym("a"), sym("b")]),
                Cons::from_iter(vec![sym("+"), sym("a"), sym("b")]),
            ]),
            Cons::from_iter(vec![sym("add"), num(1), Cons::Value(ConsValue::NIL)]),
        ])
    );
}

#[test]
fn quotes_are_read() {
    let once = vec![ControlToken::QUOTE, ControlToken::INTEGER(1)];
    assert_eq!(parse(once), Ok(vec![Cons::Quoted(Arc::new(num(1)))]));
    let twice = vec![
        ControlToken::QUOTE,
        ControlToken::WHITESPACE,
        ControlToken::QUOTE,
        ControlToken::LPAREN,
        ControlToken::INTEGER(1),
        ControlToken::INTEGER(2),
        ControlToken::RPAREN,
    ];
    assert_eq!(
        parse(twice),
        Ok(vec![Cons::Quoted(Arc::new(Cons::Quoted(Arc::new(Cons::from_iter(vec![
            num(1),
            num(2)
        ])))))])
    );
    let inside = vec![
        ControlToken::LPAREN,
        ControlToken::QUOTE,
        symbol("a"),
        symbol("b"),
        ControlToken::RPAREN,
    ];
    assert_eq!(
        parse(inside),
        Ok(vec![Cons::from_iter(vec![Cons::Quoted(Arc::new(sym("a"))), sym("b")])])
    );
}

#[test]
fn brackets_must_match() {
    assert_eq!(parse(vec![ControlToken::RPAREN]), Err(ParserError("Unmatched RPAREN")));
    assert_eq!(
        parse(vec![ControlToken::INTEGER(1), ControlToken::RPAREN]),
        Err(ParserError("Unmatched RPAREN"))
    );
    assert_eq!(
        parse(vec![ControlToken::LPAREN, ControlToken::RPAREN, ControlToken::RPAREN]),
        Err(ParserError("Unmatched RPAREN"))
    );
    assert_eq!(parse(vec![ControlToken::LPAREN]), Err(ParserError("Unmatched LPAREN")));
    assert_eq!(
        parse(vec![ControlToken::LPAREN, ControlToken::INTEGER(1), ControlToken::WHITESPACE]),
        Err(ParserError("Unmatched LPAREN"))
    );
    assert_eq!(
        parse(vec![
            ControlToken::LPAREN,
            ControlToken::LPAREN,
            ControlToken::INTEGER(1),
            ControlToken::RPAREN,
        ]),
        Err(ParserError("Unmatched LPAREN"))
    );
    assert_eq!(
        parse(vec![ControlToken::LPAREN, ControlToken::QUOTE]),
        Err(ParserError("Unmatched LPAREN"))
    );
}

#[test]
fn a_quote_wants_a_form() {
    assert_eq!(parse(vec![ControlToken::QUOTE]), Err(ParserError("Unexpected end of input")));
    assert_eq!(
        parse(vec![ControlToken::INTEGER(1), ControlToken::QUOTE, ControlToken::WHITESPACE]),
        Err(ParserError("Unexpected end of input"))
    );
    assert_eq!(
        parse(vec![ControlToken::LPAREN, ControlToken::QUOTE, ControlToken::RPAREN]),
        Err(ParserError("Unmatched RPAREN"))
    );
}

#[test]
fn what_is_no_token_is_refused() {
    let bad = || ControlToken::ERROR(LexerError("Syntax Error"));
    assert_eq!(parse(vec![bad()]), Err(ParserError("Syntax Error")));
    assert_eq!(
        parse(vec![ControlToken::LPAREN, ControlToken::INTEGER(1), bad(), ControlToken::RPAREN]),
        Err(ParserError("Syntax Error"))
    );
    assert_eq!(
        parse(vec![ControlToken::RPAREN, bad()]),
        Err(ParserError("Unmatched RPAREN"))
    );
    assert_eq!(parse(vec![ControlToken::QUOTE, bad()]), Err(ParserError("Syntax Error")));
}

#[test]
fn long_lists_are_read() {
    let mut tokens = vec![ControlToken::LPAREN];
    let mut expected = Vec::new();
    for i in 0..10_000 {
        tokens.push(ControlToken::INTEGER(i));
        expected.push(num(i));
    }
    tokens.push(ControlToken::RPAREN);
    assert_eq!(parse(tokens), Ok(vec![Cons::from_iter(expected)]));
}

#[test]
fn errors_compare_by_their_text() {
    let a = ParserError("Unmatched RPAREN");
    let b = a;
    assert_eq!(a, b);
    assert_ne!(a, ParserError("Unmatched LPAREN"));
    assert_eq!(LexerError("Syntax Error").0, "Syntax Error");
    let c = boxr::errors::ConsCellCreateError("no cell");
    assert_eq!(c.clone(), c);
    assert_eq!(c.0, "no cell");
}
