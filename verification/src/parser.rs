//! The statement parser: the syntax tree and the parser that builds it from
//! the tokens of a lexer.

pub mod ast;
pub mod state;
