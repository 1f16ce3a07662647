//! What the lexer recognises, stated on sequences of characters: the
//! classes of character, the symbol tables, and the token that starts at
//! any position of a text.
use crate::error::OrionError;
use crate::lexer::cursor::char_after;
use crate::lexer::tokens::{Location, SpecKind, SpecToken};
use vstd::prelude::*;

verus! {

/// Whether `c` is alphabetic, as Unicode defines it.
pub uninterp spec fn alphabetic(c: char) -> bool;

/// `char::is_alphabetic` of std: a function of the character alone, decided
/// by the tables of the Unicode Character Database. The result is given the
/// name [`alphabetic`]; nothing more is claimed of it.
pub assume_specification[ char::is_alphabetic ](c: char) -> (r: bool)
    ensures
        r == alphabetic(c),
;

/// Space, tab, carriage return and newline separate tokens and form none.
pub open spec fn is_blank(c: char) -> bool {
    c == ' ' || c == '\t' || c == '\r' || c == '\n'
}

/// A decimal digit.
pub open spec fn is_digit(c: char) -> bool {
    '0' <= c <= '9'
}

/// A character that may start an identifier.
pub open spec fn starts_word(c: char) -> bool {
    alphabetic(c) || c == '_'
}

/// A character that may continue an identifier.
pub open spec fn continues_word(c: char) -> bool {
    alphabetic(c) || c == '_' || is_digit(c)
}

/// A character that may continue a number: a digit, a digit-group
/// separator, or a decimal point.
pub open spec fn continues_number(c: char) -> bool {
    is_digit(c) || c == '_' || c == '.'
}

/// The classes of character that runs of text are made of.
#[derive(Debug, Clone, Copy, PartialEq, Eq, Structural)]
pub enum CharClass {
    /// What separates tokens.
    Blank,
    /// What continues an identifier.
    Word,
    /// What continues a number.
    Numeric,
    /// Anything but the quote that closes a string.
    Quoted,
    /// Anything but the newline that ends a line.
    Line,
}

impl CharClass {
    /// Whether `c` belongs to the class.
    pub open spec fn admits(self, c: char) -> bool {
        match self {
            CharClass::Blank => is_blank(c),
            CharClass::Word => continues_word(c),
            CharClass::Numeric => continues_number(c),
            CharClass::Quoted => c != '"',
            CharClass::Line => c != '\n',
        }
    }
}

/// The end of the longest run of characters of `class` that starts at `from`.
pub open spec fn run_end(text: Seq<char>, from: int, class: CharClass) -> int
    decreases text.len() - from,
{
    if 0 <= from < text.len() && class.admits(text[from]) {
        run_end(text, from + 1, class)
    } else {
        from
    }
}

/// The position of the first `*/` at or after `from`; the length of the
/// text where there is none.
pub open spec fn closer(text: Seq<char>, from: int) -> int
    decreases text.len() - from,
{
    if from < 0 || from + 1 >= text.len() {
        text.len() as int
    } else if text[from] == '*' && text[from + 1] == '/' {
        from
    } else {
        closer(text, from + 1)
    }
}

/// The token that a punctuation character forms on its own.
pub open spec fn symbol(c: char) -> Option<SpecKind> {
    match c {
        '(' => Some(SpecKind::LPar),
        ')' => Some(SpecKind::RPar),
        '[' => Some(SpecKind::LBracket),
        ']' => Some(SpecKind::RBracket),
        '{' => Some(SpecKind::LBrace),
        '}' => Some(SpecKind::RBrace),
        '=' => Some(SpecKind::Eq),
        ':' => Some(SpecKind::Colon),
        ';' => Some(SpecKind::Semi),
        '$' => Some(SpecKind::Dollar),
        ',' => Some(SpecKind::Comma),
        '.' => Some(SpecKind::Dot),
        '~' => Some(SpecKind::Tilde),
        '*' => Some(SpecKind::Star),
        '/' => Some(SpecKind::Slash),
        '%' => Some(SpecKind::Percent),
        '&' => Some(SpecKind::Ampersand),
        '|' => Some(SpecKind::Bar),
        '^' => Some(SpecKind::Hat),
        '+' => Some(SpecKind::Plus),
        '-' => Some(SpecKind::Minus),
        '<' => Some(SpecKind::Lesser),
        '>' => Some(SpecKind::Greater),
        '!' => Some(SpecKind::Bang),
        _ => None,
    }
}

/// The table of compound operators: the token that `first` forms together
/// with the character `second` that follows it.
pub open spec fn compound(first: char, second: char) -> Option<SpecKind> {
    match (first, second) {
        (':', '=') => Some(SpecKind::UntypedAssignment),
        (':', ':') => Some(SpecKind::ColonColon),
        ('-', '>') => Some(SpecKind::RightArrow),
        ('-', '-') => Some(SpecKind::Decrement),
        ('<', '-') => Some(SpecKind::LeftArrow),
        ('<', '<') => Some(SpecKind::LesserLesser),
        ('<', '=') => Some(SpecKind::LesserEq),
        ('>', '>') => Some(SpecKind::GreaterGreater),
        ('>', '=') => Some(SpecKind::GreaterEq),
        ('.', '.') => Some(SpecKind::DotDot),
        ('+', '+') => Some(SpecKind::Increment),
        ('!', '=') => Some(SpecKind::BangEq),
        ('=', '=') => Some(SpecKind::EqEq),
        _ => None,
    }
}

/// Whether `c` can open a token of two characters: a compound operator or
/// the opener of a comment.
pub open spec fn leads_pair(c: char) -> bool {
    c == ':' || c == '-' || c == '<' || c == '>' || c == '.' || c == '+' || c == '/' || c == '!'
        || c == '='
}

/// The reserved words.
pub open spec fn is_keyword(word: Seq<char>) -> bool {
    word == seq!['l', 'e', 't'] || word == seq!['r', 'e', 't', 'u', 'r', 'n']
}

/// The location of position `at` of `text`.
pub open spec fn locate(text: Seq<char>, at: int) -> Location {
    Location::after(text.take(at))
}

/// One step of the lexer: the token it emits, the position it stops at, and
/// the error that it met, if any.
pub struct Scan {
    pub token: SpecToken,
    pub next: int,
    pub fault: Option<OrionError>,
}

/// A token of kind `kind` that starts at `start` and ends before `next`.
pub open spec fn emit(text: Seq<char>, kind: SpecKind, start: int, next: int) -> Scan {
    Scan { token: SpecToken { kind, loc: locate(text, start) }, next, fault: None }
}

/// The error `fault`, met when the lexer stood at `at`, where it stays.
pub open spec fn reject(text: Seq<char>, fault: OrionError, at: int) -> Scan {
    Scan {
        token: SpecToken { kind: SpecKind::Error, loc: locate(text, at) },
        next: at,
        fault: Some(fault),
    }
}

/// A quoted string that opens at `start`: its text runs through the closing
/// quote, and without one the lexer fails at the end of the text.
pub open spec fn quote_at(text: Seq<char>, start: int) -> Scan {
    let close = run_end(text, start + 1, CharClass::Quoted);
    if close < text.len() {
        emit(text, SpecKind::Quote(text.subrange(start, close + 1)), start, close + 1)
    } else {
        reject(text, OrionError::UnterminatedQuote, text.len() as int)
    }
}

/// A comment that opens with `//` at `start`: its text is what follows the
/// opener, up to the end of the line.
pub open spec fn line_comment_at(text: Seq<char>, start: int) -> Scan {
    let end = run_end(text, start + 2, CharClass::Line);
    emit(text, SpecKind::Comment(text.subrange(start + 2, end)), start, end)
}

/// A comment that opens with `/*` at `start`: its text is what stands
/// between the opener and the first `*/`, and without one the lexer fails at
/// the end of the text.
pub open spec fn block_comment_at(text: Seq<char>, start: int) -> Scan {
    let close = closer(text, start + 2);
    if close < text.len() {
        emit(text, SpecKind::Comment(text.subrange(start + 2, close)), start, close + 2)
    } else {
        reject(text, OrionError::UnclosedMultilineComment, text.len() as int)
    }
}

/// An identifier or a keyword that starts at `start`.
pub open spec fn word_at(text: Seq<char>, start: int) -> Scan {
    let end = run_end(text, start, CharClass::Word);
    let word = text.subrange(start, end);
    if is_keyword(word) {
        emit(text, SpecKind::Keyword(word), start, end)
    } else {
        emit(text, SpecKind::Identifier(word), start, end)
    }
}

/// A number that starts at `start`.
pub open spec fn number_at(text: Seq<char>, start: int) -> Scan {
    let end = run_end(text, start, CharClass::Numeric);
    emit(text, SpecKind::Number(text.subrange(start, end)), start, end)
}

/// The compound operator that starts at `start`, if there is one.
pub open spec fn compound_at(text: Seq<char>, start: int) -> Option<SpecKind> {
    match char_after(text, start) {
        Some(second) => compound(text[start], second),
        None => None,
    }
}

/// The token that starts at `start`, a position inside the text.
pub open spec fn token_at(text: Seq<char>, start: int) -> Scan {
    let c = text[start];
    let ahead = char_after(text, start);
    if c == '"' {
        quote_at(text, start)
    } else if c == '/' && ahead == Some('/') {
        line_comment_at(text, start)
    } else if c == '/' && ahead == Some('*') {
        block_comment_at(text, start)
    } else if compound_at(text, start) is Some {
        emit(text, compound_at(text, start)->0, start, start + 2)
    } else if symbol(c) is Some {
        emit(text, symbol(c)->0, start, start + 1)
    } else if starts_word(c) {
        word_at(text, start)
    } else if is_digit(c) {
        number_at(text, start)
    } else {
        reject(text, OrionError::UnknownCharacter(c), start)
    }
}

/// One step of the lexer from position `pos`: blanks are skipped, and the
/// token that follows them is emitted, or the end of the input.
pub open spec fn scan(text: Seq<char>, pos: int) -> Scan {
    let start = run_end(text, pos, CharClass::Blank);
    if 0 <= start < text.len() {
        token_at(text, start)
    } else {
        emit(text, SpecKind::Eof, start, start)
    }
}

/// The tokens that the lexer hands out from position `pos` on: every token
/// up to the end of the input, or up to the first error, which comes last.
pub open spec fn stream(text: Seq<char>, pos: int) -> Seq<SpecToken>
    decreases text.len() - pos,
{
    let step = scan(text, pos);
    if step.token.kind is Eof {
        Seq::empty()
    } else if step.token.kind is Error || step.next <= pos || step.next > text.len() {
        seq![step.token]
    } else {
        seq![step.token] + stream(text, step.next)
    }
}

/// The error that ends the stream from position `pos`, if one does.
pub open spec fn stream_fault(text: Seq<char>, pos: int) -> Option<OrionError>
    decreases text.len() - pos,
{
    let step = scan(text, pos);
    if step.token.kind is Eof {
        None
    } else if step.token.kind is Error || step.next <= pos || step.next > text.len() {
        step.fault
    } else {
        stream_fault(text, step.next)
    }
}

/// Where the lexer stands once the stream from position `pos` has ended.
pub open spec fn stream_end(text: Seq<char>, pos: int) -> int
    decreases text.len() - pos,
{
    let step = scan(text, pos);
    if step.token.kind is Eof || step.token.kind is Error || step.next <= pos || step.next
        > text.len() {
        step.next
    } else {
        stream_end(text, step.next)
    }
}

/// A run ends inside the text, holds only characters of its class, and is
/// followed by none of them.
pub proof fn lemma_run_end(text: Seq<char>, from: int, class: CharClass)
    requires
        0 <= from <= text.len(),
    ensures
        from <= run_end(text, from, class) <= text.len(),
        forall|i: int| from <= i < run_end(text, from, class) ==> class.admits(#[trigger] text[i]),
        run_end(text, from, class) < text.len() ==> !class.admits(
            text[run_end(text, from, class)],
        ),
    decreases text.len() - from,
{
    if from < text.len() && class.admits(text[from]) {
        lemma_run_end(text, from + 1, class);
    }
}

/// Where `closer` finds a `*/`, it is the first one at or after `from`.
pub proof fn lemma_closer(text: Seq<char>, from: int)
    requires
        0 <= from <= text.len(),
    ensures
        from <= closer(text, from) <= text.len(),
        closer(text, from) < text.len() ==> closer(text, from) + 1 < text.len() && text[closer(
            text,
            from,
        )] == '*' && text[closer(text, from) + 1] == '/',
        forall|i: int|
            from <= i < closer(text, from) && i + 1 < text.len() ==> !(#[trigger] text[i] == '*'
                && text[i + 1] == '/'),
    decreases text.len() - from,
{
    if from + 1 < text.len() && !(text[from] == '*' && text[from + 1] == '/') {
        lemma_closer(text, from + 1);
    }
}

/// A step never moves backwards and never leaves the text, and every token
/// but the two sentinels consumes at least one character.
pub proof fn lemma_scan_bounds(text: Seq<char>, pos: int)
    requires
        0 <= pos <= text.len(),
    ensures
        pos <= run_end(text, pos, CharClass::Blank) <= scan(text, pos).next <= text.len(),
        !(scan(text, pos).token.kind is Eof) && !(scan(text, pos).token.kind is Error) ==> pos
            < scan(text, pos).next,
        scan(text, pos).token.kind is Error <==> scan(text, pos).fault is Some,
{
    let start = run_end(text, pos, CharClass::Blank);
    lemma_run_end(text, pos, CharClass::Blank);
    if start < text.len() {
        lemma_run_end(text, start + 1, CharClass::Quoted);
        lemma_run_end(text, start, CharClass::Word);
        lemma_run_end(text, start, CharClass::Numeric);
        if start + 2 <= text.len() {
            lemma_run_end(text, start + 2, CharClass::Line);
            lemma_closer(text, start + 2);
        }
    }
}

/// Once a step has ended in an error or at the end of the input, every
/// further step leaves the lexer where it is.
pub proof fn lemma_sentinel_is_final(text: Seq<char>, pos: int)
    requires
        0 <= pos <= text.len(),
        scan(text, pos).token.kind is Eof || scan(text, pos).token.kind is Error,
    ensures
        scan(text, scan(text, pos).next).next == scan(text, pos).next,
{
    lemma_run_end(text, pos, CharClass::Blank);
}

/// A run is determined by what it holds and by what follows it.
pub proof fn lemma_run_end_is(text: Seq<char>, from: int, class: CharClass, end: int)
    requires
        0 <= from <= end <= text.len(),
        forall|i: int| from <= i < end ==> class.admits(#[trigger] text[i]),
        end < text.len() ==> !class.admits(text[end]),
    ensures
        run_end(text, from, class) == end,
    decreases end - from,
{
    if from < end {
        lemma_run_end_is(text, from + 1, class, end);
    }
}

/// The closer is determined by being the first `*/`.
pub proof fn lemma_closer_is(text: Seq<char>, from: int, close: int)
    requires
        0 <= from <= close,
        close + 1 < text.len(),
        text[close] == '*',
        text[close + 1] == '/',
        forall|i: int| from <= i < close ==> !(#[trigger] text[i] == '*' && text[i + 1] == '/'),
    ensures
        closer(text, from) == close,
    decreases close - from,
{
    if from < close {
        lemma_closer_is(text, from + 1, close);
    }
}

/// Where no `*/` follows, the closer is the end of the text.
pub proof fn lemma_closer_missing(text: Seq<char>, from: int)
    requires
        0 <= from,
        forall|i: int|
            from <= i && i + 1 < text.len() ==> !(#[trigger] text[i] == '*' && text[i + 1] == '/'),
    ensures
        closer(text, from) == text.len(),
    decreases text.len() - from,
{
    if from + 1 < text.len() {
        lemma_closer_missing(text, from + 1);
    }
}

} // verus!
