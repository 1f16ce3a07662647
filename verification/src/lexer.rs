//! Entry point of the lexer: the token model, the cursor, and the scanner.

pub mod classify;
pub mod cursor;
pub mod encoding;
pub mod grammar;
pub mod laws;
pub mod state;
pub mod tokens;
