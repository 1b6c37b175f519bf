//! A verified core for a tree-walking interpreter of Lox, a small
//! dynamically-typed language: scanner, recursive-descent parser, abstract
//! syntax tree, and an expression/statement evaluator over a mutable variable
//! environment.
//!
//! Lox numbers are IEEE-754 double-precision values. The library represents
//! them by their 64-bit pattern (`u64`); equality, ordering and negation are
//! carried out on the bit patterns by verified code. The four arithmetic
//! operations, the conversion of a number literal's text to its bit pattern,
//! and the rendering of a number as text cannot be computed here, so the
//! evaluator asks its caller for them: wherever one of these results is not
//! yet known, the pipeline stops and returns a [`oracle::NumQuery`]. The
//! caller computes the answer with its own floating-point unit, records it in
//! a [`oracle::NumOracle`], and runs the pipeline again. Every run is
//! deterministic given the oracle, so the rerun reaches the same point and
//! continues past it.


pub mod token_type;
pub mod token;
pub mod numbits;
pub mod expr;
pub mod stmt;
pub mod oracle;
pub mod environment;
pub mod scanner;
pub mod parser;
pub mod interpreter;
pub mod lox;
