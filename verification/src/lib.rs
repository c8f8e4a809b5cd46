//! A tree-walking interpreter for a small, dynamically typed, expression-oriented
//! scripting language: a Unicode-aware lexer, a Pratt parser, a recursive
//! evaluator with lexical closures and in-band error propagation, and a
//! source formatter.

pub mod ast;
pub mod evaluator;
pub mod formatter;
pub mod lexer;
pub mod parser;
pub mod strutil;
pub mod token;

pub use token::Token;
