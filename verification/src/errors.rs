//! The errors of the reader and of the evaluator.

use vstd::prelude::*;

verus! {

/// Raised when a cons cell cannot be built from the given parts.
#[derive(Clone, Copy, Debug, PartialEq)]
pub struct ConsCellCreateError(pub &'static str);

/// Raised by a tokenizer on input it cannot split into tokens.
#[derive(Clone, Copy, Debug, PartialEq)]
pub struct LexerError(pub &'static str);

/// Raised by a reader on a token stream that is not a well-formed program.
#[derive(Clone, Copy, Debug, PartialEq)]
pub struct ParserError(pub &'static str);

/// Why an evaluation stopped without a value.
#[derive(Debug, PartialEq)]
pub enum EvaluatorError {
    /// A symbol in head position is bound to something that cannot be called.
    NotAFunction(String),
    /// A symbol is bound in none of the four tables.
    UndefinedSymbol(String),
    /// The head of a call form is not a symbol.
    UncallableType(String),
    /// A `define` or `lambda` form does not have the shape of a definition.
    BadFunctionDefinition(String),
    /// A builtin or a closure got the wrong number or kind of arguments.
    InvalidArgument(String),
    /// A builtin handle escaped where a plain value was expected.
    ReturnedNonCons(String),
}

/// Mathematical model of an [`EvaluatorError`]: the kind with its text.
pub enum Failure {
    NotAFunction(Seq<char>),
    UndefinedSymbol(Seq<char>),
    UncallableType(Seq<char>),
    BadFunctionDefinition(Seq<char>),
    InvalidArgument(Seq<char>),
    ReturnedNonCons(Seq<char>),
}

impl View for EvaluatorError {
    type V = Failure;

    open spec fn view(&self) -> Failure {
        match self {
            EvaluatorError::NotAFunction(s) => Failure::NotAFunction(s@),
            EvaluatorError::UndefinedSymbol(s) => Failure::UndefinedSymbol(s@),
            EvaluatorError::UncallableType(s) => Failure::UncallableType(s@),
            EvaluatorError::BadFunctionDefinition(s) => Failure::BadFunctionDefinition(s@),
            EvaluatorError::InvalidArgument(s) => Failure::InvalidArgument(s@),
            EvaluatorError::ReturnedNonCons(s) => Failure::ReturnedNonCons(s@),
        }
    }
}

impl Clone for EvaluatorError {
    fn clone(&self) -> (r: Self)
        ensures
            r@ == self@,
    {
        match self {
            EvaluatorError::NotAFunction(s) => EvaluatorError::NotAFunction(s.clone()),
            EvaluatorError::UndefinedSymbol(s) => EvaluatorError::UndefinedSymbol(s.clone()),
            EvaluatorError::UncallableType(s) => EvaluatorError::UncallableType(s.clone()),
            EvaluatorError::BadFunctionDefinition(s) => EvaluatorError::BadFunctionDefinition(
                s.clone(),
            ),
            EvaluatorError::InvalidArgument(s) => EvaluatorError::InvalidArgument(s.clone()),
            EvaluatorError::ReturnedNonCons(s) => EvaluatorError::ReturnedNonCons(s.clone()),
        }
    }
}

impl EvaluatorError {
    /// The text carried by the error: a symbol's name for an undefined
    /// symbol, a description otherwise.
    pub fn message(&self) -> (r: String)
        ensures
            r@ == self@.text(),
    {
        match self {
            EvaluatorError::NotAFunction(s) => s.clone(),
            EvaluatorError::UndefinedSymbol(s) => s.clone(),
            EvaluatorError::UncallableType(s) => s.clone(),
            EvaluatorError::BadFunctionDefinition(s) => s.clone(),
            EvaluatorError::InvalidArgument(s) => s.clone(),
            EvaluatorError::ReturnedNonCons(s) => s.clone(),
        }
    }
}

impl Failure {
    pub open spec fn text(self) -> Seq<char> {
        match self {
            Failure::NotAFunction(s) => s,
            Failure::UndefinedSymbol(s) => s,
            Failure::UncallableType(s) => s,
            Failure::BadFunctionDefinition(s) => s,
            Failure::InvalidArgument(s) => s,
            Failure::ReturnedNonCons(s) => s,
        }
    }
}

} // verus!
