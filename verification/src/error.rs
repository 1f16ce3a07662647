//! Error types for the Orion language.
use vstd::prelude::*;
use vstd::string::StringExecFns;

verus! {

#[derive(Debug, Clone, Copy, PartialEq, Eq, Structural)]
pub enum OrionError {
    // GENERAL ERRORS
    /// Unimplemented feature
    Unimplemented,
    /// Input/Output error
    IOError,
    // LEXER ERRORS
    /// General Lexer error
    LexerError,
    /// A character that starts no token. e.g. `#`
    UnknownCharacter(char),
    /// Unterminated quote for a string. e.g. `let a := "abc..`
    UnterminatedQuote,
    /// Unclosed multiline comment. e.g. `/* this is a comment without a close.`
    UnclosedMultilineComment,
    // PARSER ERRORS
    /// Nothing follows a `let`. e.g. `let`
    MissingIdentifier,
    /// No `=` follows the name of a `let`. e.g. `let a 1;`
    ExpectedAssignment,
    /// No `;` closes a `let`. e.g. `let a = 1`
    UnclosedLet,
}

impl OrionError {
    /// The message of each error, as a sequence of characters.
    pub open spec fn message_text(self) -> Seq<char> {
        match self {
            OrionError::Unimplemented => "not implemented."@,
            OrionError::IOError => "file not found."@,
            OrionError::LexerError => "there was an error in lexing."@,
            OrionError::UnknownCharacter(_) => "There was an unknown character."@,
            OrionError::UnterminatedQuote => "There was an unterminated quote."@,
            OrionError::UnclosedMultilineComment => "A multiline comment was unclosed."@,
            OrionError::MissingIdentifier => "no identifier succeding a let identifier."@,
            OrionError::ExpectedAssignment => "Assignment expected after let expression"@,
            OrionError::UnclosedLet => "Unclosed let assignment"@,
        }
    }

    /// Get the message for each error, saying what happened
    pub fn message(&self) -> (msg: String)
        ensures
            msg@ == self.message_text(),
    {
        match self {
            OrionError::Unimplemented => String::from_str("not implemented."),
            OrionError::IOError => String::from_str("file not found."),
            OrionError::LexerError => String::from_str("there was an error in lexing."),
            OrionError::UnknownCharacter(_) => String::from_str("There was an unknown character."),
            OrionError::UnterminatedQuote => String::from_str("There was an unterminated quote."),
            OrionError::UnclosedMultilineComment => String::from_str(
                "A multiline comment was unclosed.",
            ),
            OrionError::MissingIdentifier => String::from_str(
                "no identifier succeding a let identifier.",
            ),
            OrionError::ExpectedAssignment => String::from_str(
                "Assignment expected after let expression",
            ),
            OrionError::UnclosedLet => String::from_str("Unclosed let assignment"),
        }
    }
}

} // verus!
