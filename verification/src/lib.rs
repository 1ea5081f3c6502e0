//! A front end for a small expression-oriented language: a lexer that turns
//! source text into tokens, an abstract syntax tree with a canonical textual
//! rendering, and a precedence-climbing parser that builds the tree.

pub mod ast;
pub mod chars;
pub mod digits;
pub mod lexer;
pub mod parser;
pub mod strutil;
pub mod token;
