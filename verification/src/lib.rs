//! Lexical analysis for the Orion language: a cursor over source text, the
//! token model, and the state machine that turns text into located tokens;
//! and the statement parser that consumes them.

pub mod error;
pub mod lexer;
pub mod parser;
