//! A small Lisp: values built from cons cells, environments with
//! snapshot scoping, a registry of primitives and special forms, closures,
//! and an evaluator that runs as a machine, one step at a time.
//!
//! The library never computes in floating point and never prints. Where an
//! evaluation needs either, the machine hands the host a request and takes
//! the host's reply with its next step.

pub mod boxed;
pub mod errors;
pub mod evaluator;
pub mod lexer;
pub mod parser;
pub mod text;
pub mod types;
