//! A tree-walking interpreter for a small dynamically typed scripting
//! language: a lexer, a recursive-descent parser and an evaluator with
//! chained scopes, each function carrying a machine-checked contract.
//!
//! Numbers are IEEE 754 binary32 values held by their bit patterns. Ordering,
//! equality and negation are decided on the bits; addition, subtraction,
//! multiplication, division and the reading of a decimal literal are asked of
//! the caller, who passes them in as functions.

pub mod environment;
pub mod function;
pub mod grammar;
pub mod interpreter;
pub mod laws;
pub mod lexer;
pub mod literal;
pub mod parser;
pub mod roz;
pub mod semantics;
pub mod stmt;
pub mod text;
