//! A small expression language with integers and floating-point numbers,
//! typed declarations, assignment, nested blocks and early return.
//!
//! Text goes through four stages, each stated against a mathematical model
//! and proved to compute it:
//!
//! - [`lexer`]: bytes to tokens, one at a time;
//! - [`parser`]: tokens to a syntax tree ([`ast`]), by the rules of
//!   [`grammar`];
//! - [`symbols`]: the static check of types and mutability, which a tree
//!   must pass before any of it is evaluated;
//! - [`interpreter`]: the evaluation of a checked tree to an [`object`], in
//!   an environment of variables that lasts from run to run.
//!
//! [`laws`] holds what follows for every tree.
//!
//! The library does no floating-point arithmetic. A floating-point value is
//! held as the operations that yield it, over the numerals of the literals
//! (`object::FloatTerm`); since no rule of the language depends on such a
//! value, it is computed only where it is shown.

pub mod ast;
pub mod errors;
pub mod grammar;
pub mod interpreter;
pub mod laws;
pub mod lexer;
pub mod object;
pub mod parser;
pub mod symbols;
pub mod token;
