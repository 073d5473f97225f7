//! A lexical scanner for a small experimental language: source text in,
//! positioned tokens out, with every step proved against a model of the
//! lexical grammar.

pub mod span;
pub mod chars;
pub mod symbol;
pub mod token;
pub mod error;
pub mod grammar;
pub mod keywords;
pub mod lexer;
pub mod laws;
pub mod parser;
