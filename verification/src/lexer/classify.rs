//! Decisions on single characters and on words: the executable side of the
//! character classes and symbol tables.
use crate::lexer::encoding::same_text;
use crate::lexer::grammar::{
    compound, is_digit, is_keyword, leads_pair, starts_word, symbol, CharClass,
};
use crate::lexer::tokens::TokenKind;
use vstd::prelude::*;

verus! {

/// Whether `chr` is a space, a carriage return or a tab.
pub fn is_whitespace(chr: char) -> (r: bool)
    ensures
        r == (chr == ' ' || chr == '\r' || chr == '\t'),
{
    chr == ' ' || chr == '\r' || chr == '\t'
}

/// Whether `chr` is a decimal digit.
pub fn is_decimal(chr: char) -> (r: bool)
    ensures
        r == is_digit(chr),
{
    '0' <= chr && chr <= '9'
}

/// Whether a character may start an identifier, given whether it is
/// alphabetic: a letter or an underscore may.
pub fn starts_identifier(chr: char, alphabetic: bool) -> (r: bool)
    ensures
        r == (alphabetic || chr == '_'),
{
    alphabetic || chr == '_'
}

/// Whether a character may continue an identifier, given whether it is
/// alphabetic: a letter, an underscore or a digit may.
pub fn continues_identifier(chr: char, alphabetic: bool) -> (r: bool)
    ensures
        r == (alphabetic || chr == '_' || is_digit(chr)),
{
    alphabetic || chr == '_' || is_decimal(chr)
}

/// Whether `chr` may start an identifier.
pub fn is_word_start(chr: char) -> (r: bool)
    ensures
        r == starts_word(chr),
{
    starts_identifier(chr, chr.is_alphabetic())
}

impl CharClass {
    /// Whether `chr` belongs to the class.
    pub fn test(self, chr: char) -> (r: bool)
        ensures
            r == self.admits(chr),
    {
        match self {
            CharClass::Blank => is_whitespace(chr) || chr == '\n',
            CharClass::Word => continues_identifier(chr, chr.is_alphabetic()),
            CharClass::Numeric => is_decimal(chr) || chr == '_' || chr == '.',
            CharClass::Quoted => chr != '"',
            CharClass::Line => chr != '\n',
        }
    }
}

/// Whether `word` is reserved.
pub fn is_reserved(word: &str) -> (r: bool)
    ensures
        r == is_keyword(word@),
{
    proof {
        reveal_strlit("let");
        reveal_strlit("return");
        assert("let"@ =~= seq!['l', 'e', 't']);
        assert("return"@ =~= seq!['r', 'e', 't', 'u', 'r', 'n']);
    }
    same_text(word, "let") || same_text(word, "return")
}

/// The token that the punctuation character `chr` forms on its own.
pub fn punctuation<'tok>(chr: char) -> (kind: Option<TokenKind<'tok>>)
    ensures
        match kind {
            Some(kind) => symbol(chr) == Some(kind@),
            None => symbol(chr) is None,
        },
{
    match chr {
        '(' => Some(TokenKind::LPar),
        ')' => Some(TokenKind::RPar),
        '[' => Some(TokenKind::LBracket),
        ']' => Some(TokenKind::RBracket),
        '{' => Some(TokenKind::LBrace),
        '}' => Some(TokenKind::RBrace),
        '=' => Some(TokenKind::Eq),
        ':' => Some(TokenKind::Colon),
        ';' => Some(TokenKind::Semi),
        '$' => Some(TokenKind::Dollar),
        ',' => Some(TokenKind::Comma),
        '.' => Some(TokenKind::Dot),
        '~' => Some(TokenKind::Tilde),
        '*' => Some(TokenKind::Star),
        '/' => Some(TokenKind::Slash),
        '%' => Some(TokenKind::Percent),
        '&' => Some(TokenKind::Ampersand),
        '|' => Some(TokenKind::Bar),
        '^' => Some(TokenKind::Hat),
        '+' => Some(TokenKind::Plus),
        '-' => Some(TokenKind::Minus),
        '<' => Some(TokenKind::Lesser),
        '>' => Some(TokenKind::Greater),
        '!' => Some(TokenKind::Bang),
        _ => None,
    }
}

/// Whether `chr` opens a compound operator or a comment, so that the
/// character after it has to be looked at.
pub fn needs_lookahead(chr: char) -> (r: bool)
    ensures
        r == leads_pair(chr),
        !r ==> chr != '/' && forall|second: char| compound(chr, second) is None,
{
    match chr {
        ':' | '-' | '<' | '>' | '.' | '+' | '/' | '!' | '=' => true,
        _ => false,
    }
}

/// The compound operator that `first` and `second` form together.
pub fn operator<'tok>(first: char, second: char) -> (kind: Option<TokenKind<'tok>>)
    ensures
        match kind {
            Some(kind) => compound(first, second) == Some(kind@),
            None => compound(first, second) is None,
        },
{
    match (first, second) {
        (':', '=') => Some(TokenKind::UntypedAssignment),
        (':', ':') => Some(TokenKind::ColonColon),
        ('-', '>') => Some(TokenKind::RightArrow),
        ('-', '-') => Some(TokenKind::Decrement),
        ('<', '-') => Some(TokenKind::LeftArrow),
        ('<', '<') => Some(TokenKind::LesserLesser),
        ('<', '=') => Some(TokenKind::LesserEq),
        ('>', '>') => Some(TokenKind::GreaterGreater),
        ('>', '=') => Some(TokenKind::GreaterEq),
        ('.', '.') => Some(TokenKind::DotDot),
        ('+', '+') => Some(TokenKind::Increment),
        ('!', '=') => Some(TokenKind::BangEq),
        ('=', '=') => Some(TokenKind::EqEq),
        _ => None,
    }
}

} // verus!
