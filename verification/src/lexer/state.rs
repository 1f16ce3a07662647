//! The lexer: a pull-based state machine that classifies runs of characters
//! into tokens and tracks where in the source each of them begins.
use crate::error::OrionError;
use crate::lexer::classify::{
    is_decimal, is_reserved, is_word_start, needs_lookahead, operator, punctuation,
};
use crate::lexer::cursor::Cursor;
use crate::lexer::grammar::{
    block_comment_at, closer, lemma_run_end, lemma_scan_bounds, lemma_sentinel_is_final,
    line_comment_at, locate, number_at, quote_at, reject, run_end, scan, stream, stream_end,
    stream_fault, word_at, CharClass, Scan,
};
use crate::lexer::tokens::{
    lemma_line_counts_bounded, line_breaks, line_tail, succ_saturating, Location, SpecToken,
    Token, TokenKind,
};
use vstd::prelude::*;

verus! {

/// A lexer over a borrowed text. Tokens are pulled from it one at a time,
/// in the order of the source; once it has met an error it hands out no more.
pub struct Lexer<'a> {
    cursor: Cursor<'a>,
    // the line breaks consumed so far
    breaks: usize,
    // the characters consumed since the last line break
    tail: usize,
    // the first error met, which is never cleared
    failure: Option<OrionError>,
}

/// What one step does to a lexer: the text stays, the position moves to
/// where the step stops, the first error is kept, and `token` is the token
/// of the step.
pub open spec fn yields(before: Lexer, after: Lexer, token: Token, step: Scan) -> bool {
    &&& after.text() == before.text()
    &&& after.pos() == step.next
    &&& after.fault() == if before.fault() is Some {
        before.fault()
    } else {
        step.fault
    }
    &&& token@ == step.token
}

/// What pulling every token does to a lexer. One that has met an error
/// stays as it is and reports that error. Any other runs to the end of its
/// stream, and reports the error that ends the stream, or else hands back
/// the tokens of the stream.
pub open spec fn drains(
    before: Lexer,
    after: Lexer,
    outcome: Result<Vec<Token>, OrionError>,
) -> bool {
    &&& after.text() == before.text()
    &&& match before.fault() {
        Some(fault) => {
            &&& outcome == Err::<Vec<Token>, OrionError>(fault)
            &&& after.pos() == before.pos()
            &&& after.fault() == before.fault()
        },
        None => {
            &&& after.pos() == stream_end(before.text(), before.pos() as int)
            &&& after.fault() == stream_fault(before.text(), before.pos() as int)
            &&& match outcome {
                Ok(tokens) => after.fault() is None && views(tokens@) == stream(
                    before.text(),
                    before.pos() as int,
                ),
                Err(fault) => after.fault() == Some(fault),
            }
        },
    }
}

/// The views of a vector of tokens.
pub open spec fn views(tokens: Seq<Token>) -> Seq<SpecToken> {
    tokens.map_values(|token: Token| token@)
}

impl<'a> Lexer<'a> {
    /// The text that is being lexed.
    pub closed spec fn text(&self) -> Seq<char> {
        self.cursor.text()
    }

    /// The position of the lexer in the text, counted in characters.
    pub closed spec fn pos(&self) -> nat {
        self.cursor.pos()
    }

    /// The first error that the lexer has met, if it has met one.
    pub closed spec fn fault(&self) -> Option<OrionError> {
        self.failure
    }

    /// Whether the lexer has met an error.
    pub open spec fn failed(&self) -> bool {
        self.fault() is Some
    }

    /// The step that the lexer takes next.
    pub open spec fn upcoming(&self) -> Scan {
        scan(self.text(), self.pos() as int)
    }

    /// The tokens that the lexer has yet to hand out: none once it has met
    /// an error, and else the stream from its position.
    pub open spec fn remaining(&self) -> Seq<SpecToken> {
        if self.fault() is Some {
            Seq::empty()
        } else {
            stream(self.text(), self.pos() as int)
        }
    }

    /// The cursor is well formed and the line counters describe the text
    /// consumed so far.
    closed spec fn sound(&self) -> bool {
        &&& self.cursor.wf()
        &&& self.breaks == line_breaks(self.cursor.text().take(self.cursor.pos() as int))
        &&& self.tail == line_tail(self.cursor.text().take(self.cursor.pos() as int))
    }

    /// The lexer's fields agree with each other, and a lexer that has met an
    /// error stands where no step moves it.
    pub closed spec fn wf(&self) -> bool {
        &&& self.sound()
        &&& self.failure is Some ==> self.upcoming().next == self.pos()
    }

    /// A well-formed lexer stands inside its text.
    pub proof fn lemma_within(&self)
        requires
            self.wf(),
        ensures
            self.pos() <= self.text().len(),
    {
        self.cursor.lemma_bounds();
    }

    /// A lexer at the start of `input`.
    pub fn new(input: &'a str) -> (lexer: Self)
        ensures
            lexer.wf(),
            lexer.text() == input@,
            lexer.pos() == 0,
            lexer.fault() is None,
    {
        let cursor = Cursor::new(input);
        Lexer { cursor, breaks: 0, tail: 0, failure: None }
    }

    /// Whether the lexer has met an error.
    #[verifier::when_used_as_spec(failed)]
    pub fn error(&self) -> (failed: bool)
        ensures
            failed == self.failed(),
    {
        self.failure.is_some()
    }

    /// The first error that the lexer has met.
    #[verifier::when_used_as_spec(fault)]
    pub fn failure(&self) -> (fault: Option<OrionError>)
        ensures
            fault == self.fault(),
    {
        self.failure
    }

    /// The location of the lexer's position.
    pub fn location(&self) -> (loc: Location)
        requires
            self.wf(),
        ensures
            loc == locate(self.text(), self.pos() as int),
    {
        self.here()
    }

    fn here(&self) -> (loc: Location)
        requires
            self.sound(),
        ensures
            loc == locate(self.text(), self.pos() as int),
    {
        Location::new(succ_saturating(self.breaks), succ_saturating(self.tail))
    }

    /// Consumes one character and counts it into the current location.
    fn scan_char(&mut self)
        requires
            old(self).sound(),
        ensures
            final(self).sound(),
            final(self).text() == old(self).text(),
            final(self).fault() == old(self).fault(),
            final(self).pos() == if old(self).pos() < old(self).text().len() {
                old(self).pos() + 1
            } else {
                old(self).pos()
            },
    {
        if !self.cursor.is_at_end() {
            proof {
                let text = self.cursor.text();
                let pos = self.cursor.pos() as int;
                self.cursor.lemma_bounds();
                lemma_line_counts_bounded(text.take(pos));
                assert(text.take(pos + 1).drop_last() =~= text.take(pos));
            }
            if self.cursor.current() == '\n' {
                self.breaks = self.breaks + 1;
                self.tail = 0;
            } else {
                self.tail = self.tail + 1;
            }
            self.cursor.advance();
        }
    }

    /// Check if the lexer is at the end of its input
    fn is_at_end(&self) -> (end: bool)
        requires
            self.sound(),
        ensures
            end == (self.pos() == self.text().len()),
            self.pos() <= self.text().len(),
    {
        proof {
            self.cursor.lemma_bounds();
        }
        self.cursor.is_at_end()
    }

    /// When scanning through multi-charactered tokens, sometimes it's useful
    /// to skip two at once.
    fn skip_n(&mut self, many: usize)
        requires
            old(self).sound(),
        ensures
            final(self).sound(),
            final(self).text() == old(self).text(),
            final(self).fault() == old(self).fault(),
            final(self).pos() == if old(self).pos() + many <= old(self).text().len() {
                old(self).pos() + many
            } else {
                old(self).text().len() as int
            },
    {
        proof {
            self.cursor.lemma_bounds();
        }
        let mut i: usize = 0;
        while i < many
            invariant
                self.sound(),
                self.text() == old(self).text(),
                self.fault() == old(self).fault(),
                i <= many,
                old(self).pos() <= old(self).text().len(),
                self.pos() == if old(self).pos() + i <= old(self).text().len() {
                    old(self).pos() + i
                } else {
                    old(self).text().len() as int
                },
            decreases many - i,
        {
            self.scan_char();
            i += 1;
        }
    }

    /// Consumes the longest run of characters of `class`.
    fn skip_while(&mut self, class: CharClass)
        requires
            old(self).sound(),
        ensures
            final(self).sound(),
            final(self).text() == old(self).text(),
            final(self).fault() == old(self).fault(),
            final(self).pos() == run_end(old(self).text(), old(self).pos() as int, class),
    {
        proof {
            self.cursor.lemma_bounds();
        }
        while !self.is_at_end() && class.test(self.cursor.current())
            invariant
                self.sound(),
                self.text() == old(self).text(),
                self.fault() == old(self).fault(),
                self.pos() <= self.text().len(),
                run_end(self.text(), self.pos() as int, class) == run_end(
                    old(self).text(),
                    old(self).pos() as int,
                    class,
                ),
            decreases self.text().len() - self.pos(),
        {
            self.scan_char();
        }
    }

    /// Skip the tokens that aren't used in symbols or identifiers
    fn skip_nontokens(&mut self)
        requires
            old(self).sound(),
        ensures
            final(self).sound(),
            final(self).text() == old(self).text(),
            final(self).fault() == old(self).fault(),
            final(self).pos() == run_end(
                old(self).text(),
                old(self).pos() as int,
                CharClass::Blank,
            ),
    {
        self.skip_while(CharClass::Blank);
    }

    /// Generate an error token
    fn error_token(&mut self, fault: OrionError) -> (token: Token<'a>)
        requires
            old(self).sound(),
        ensures
            final(self).sound(),
            yields(
                *old(self),
                *final(self),
                token,
                reject(old(self).text(), fault, old(self).pos() as int),
            ),
    {
        if self.failure.is_none() {
            self.failure = Some(fault);
        }
        Token::new(TokenKind::Error, self.here())
    }

    fn scan_identifier(&mut self, loc: Location) -> (token: Token<'a>)
        requires
            old(self).sound(),
            old(self).pos() < old(self).text().len(),
            loc == locate(old(self).text(), old(self).pos() as int),
        ensures
            final(self).sound(),
            yields(
                *old(self),
                *final(self),
                token,
                word_at(old(self).text(), old(self).pos() as int),
            ),
    {
        proof {
            lemma_run_end(self.text(), self.pos() as int, CharClass::Word);
        }
        let from = self.cursor.mark();
        self.skip_while(CharClass::Word);
        let to = self.cursor.mark();
        let word = self.cursor.between(from, to);
        if is_reserved(word) {
            Token::new(TokenKind::Keyword(word), loc)
        } else {
            Token::new(TokenKind::Identifier(word), loc)
        }
    }

    fn scan_number(&mut self, loc: Location) -> (token: Token<'a>)
        requires
            old(self).sound(),
            old(self).pos() < old(self).text().len(),
            loc == locate(old(self).text(), old(self).pos() as int),
        ensures
            final(self).sound(),
            yields(
                *old(self),
                *final(self),
                token,
                number_at(old(self).text(), old(self).pos() as int),
            ),
    {
        proof {
            lemma_run_end(self.text(), self.pos() as int, CharClass::Numeric);
        }
        let from = self.cursor.mark();
        self.skip_while(CharClass::Numeric);
        let to = self.cursor.mark();
        Token::new(TokenKind::Number(self.cursor.between(from, to)), loc)
    }

    fn scan_quote(&mut self, loc: Location) -> (token: Token<'a>)
        requires
            old(self).sound(),
            old(self).pos() < old(self).text().len(),
            loc == locate(old(self).text(), old(self).pos() as int),
        ensures
            final(self).sound(),
            yields(
                *old(self),
                *final(self),
                token,
                quote_at(old(self).text(), old(self).pos() as int),
            ),
    {
        proof {
            lemma_run_end(self.text(), self.pos() as int + 1, CharClass::Quoted);
        }
        let from = self.cursor.mark();
        // consume leading quote
        self.scan_char();
        self.skip_while(CharClass::Quoted);
        if self.is_at_end() {
            // Terminating '"' not found is an error
            self.error_token(OrionError::UnterminatedQuote)
        } else {
            // consume trailing quote
            self.scan_char();
            let to = self.cursor.mark();
            Token::new(TokenKind::Quote(self.cursor.between(from, to)), loc)
        }
    }

    fn scan_single_line_comment(&mut self, loc: Location, Ghost(start): Ghost<int>) -> (token:
        Token<'a>)
        requires
            old(self).sound(),
            0 <= start,
            old(self).pos() == start + 2,
            old(self).pos() <= old(self).text().len(),
            loc == locate(old(self).text(), start),
        ensures
            final(self).sound(),
            yields(*old(self), *final(self), token, line_comment_at(old(self).text(), start)),
    {
        proof {
            lemma_run_end(self.text(), self.pos() as int, CharClass::Line);
        }
        let from = self.cursor.mark();
        // Scan until the end of the line
        self.skip_while(CharClass::Line);
        let to = self.cursor.mark();
        Token::new(TokenKind::Comment(self.cursor.between(from, to)), loc)
    }

    fn scan_multiline_comment(&mut self, loc: Location, Ghost(start): Ghost<int>) -> (token:
        Token<'a>)
        requires
            old(self).sound(),
            0 <= start,
            old(self).pos() == start + 2,
            old(self).pos() <= old(self).text().len(),
            loc == locate(old(self).text(), start),
        ensures
            final(self).sound(),
            yields(*old(self), *final(self), token, block_comment_at(old(self).text(), start)),
    {
        let from = self.cursor.mark();
        while !self.is_at_end()
            invariant
                self.sound(),
                self.text() == old(self).text(),
                self.fault() == old(self).fault(),
                from.fits(self.text()),
                from.index() == start + 2,
                loc == locate(self.text(), start),
                start + 2 <= self.pos() <= self.text().len(),
                closer(self.text(), self.pos() as int) == closer(self.text(), start + 2),
            decreases self.text().len() - self.pos(),
        {
            // Check if the current and next characters are a '*/', a closing
            // multiline comment delimiter.
            if self.cursor.current() == '*' {
                if let Some('/') = self.cursor.peek() {
                    let to = self.cursor.mark();
                    // consume the trailing */
                    self.skip_n(2);
                    return Token::new(TokenKind::Comment(self.cursor.between(from, to)), loc);
                }
            }
            self.scan_char();
        }
        self.error_token(OrionError::UnclosedMultilineComment)
    }

    /// Takes one step: skips what separates tokens, and hands out the token
    /// that follows, or the end of the input. A lexer that has met an error
    /// stays where it is.
    pub fn next_token(&mut self) -> (token: Token<'a>)
        requires
            old(self).wf(),
        ensures
            final(self).wf(),
            yields(*old(self), *final(self), token, old(self).upcoming()),
            old(self).fault() is Some ==> final(self).pos() == old(self).pos(),
    {
        proof {
            self.cursor.lemma_bounds();
            if self.upcoming().token.kind is Eof || self.upcoming().token.kind is Error {
                lemma_sentinel_is_final(self.text(), self.pos() as int);
            }
        }
        // Skip everything at the beginning that we don't need. Spaces, tabs,
        // etc..
        self.skip_nontokens();
        // Get the current location of the token
        let loc = self.here();
        let ghost start = self.pos() as int;

        // If we are at the end, return EOF token
        if self.is_at_end() {
            return Token::new(TokenKind::Eof, loc);
        }
        let chr = self.cursor.current();
        if chr == '"' {
            return self.scan_quote(loc);
        }
        if needs_lookahead(chr) {
            if let Some(ahead) = self.cursor.peek() {
                if chr == '/' && ahead == '/' {
                    self.skip_n(2);
                    return self.scan_single_line_comment(loc, Ghost(start));
                }
                if chr == '/' && ahead == '*' {
                    self.skip_n(2);
                    return self.scan_multiline_comment(loc, Ghost(start));
                }
                if let Some(kind) = operator(chr, ahead) {
                    self.skip_n(2);
                    return Token::new(kind, loc);
                }
            }
        }
        match punctuation(chr) {
            Some(kind) => {
                self.scan_char();
                Token::new(kind, loc)
            },
            None => {
                // An identifier may start with anything alphabetic or an
                // underscore, and may contain anything alphabetic,
                // underscores, or numbers.
                if is_word_start(chr) {
                    self.scan_identifier(loc)
                } else if is_decimal(chr) {
                    // Otherwise, if it starts with a digit, we are lexing a number
                    self.scan_number(loc)
                } else {
                    // Otherwise, we have encountered an error and must return an
                    // error token
                    self.error_token(OrionError::UnknownCharacter(chr))
                }
            },
        }
    }

    /// Pulls the next token: none once the lexer has met an error or reached
    /// the end of the input, and else the token of the next step. The token
    /// of an error is handed out once, and nothing after it.
    pub fn next(&mut self) -> (item: Option<Token<'a>>)
        requires
            old(self).wf(),
        ensures
            final(self).wf(),
            final(self).text() == old(self).text(),
            old(self).fault() is Some ==> item is None && final(self).pos() == old(self).pos()
                && final(self).fault() == old(self).fault(),
            old(self).fault() is None ==> {
                &&& final(self).pos() == old(self).upcoming().next
                &&& final(self).fault() == old(self).upcoming().fault
                &&& match item {
                    Some(token) => token@ == old(self).upcoming().token && !(token@.kind is Eof),
                    None => old(self).upcoming().token.kind is Eof,
                }
            },
            match item {
                Some(token) => old(self).remaining().len() > 0 && token@ == old(
                    self,
                ).remaining().first() && final(self).remaining() == old(
                    self,
                ).remaining().drop_first(),
                None => old(self).remaining().len() == 0 && final(self).remaining().len() == 0,
            },
    {
        proof {
            self.lemma_within();
            lemma_scan_bounds(self.text(), self.pos() as int);
        }
        if self.failure.is_some() {
            return None;
        }
        // Get the next token
        let token = self.next_token();
        // If we are at the end of the input, there is nothing to hand out
        if let TokenKind::Eof = token.kind {
            None
        } else {
            Some(token)
        }
    }

    /// Pulls every token that is left. The tokens come back where the input
    /// ends without an error, and else the first error that was met.
    pub fn lex(&mut self) -> (outcome: Result<Vec<Token<'a>>, OrionError>)
        requires
            old(self).wf(),
        ensures
            final(self).wf(),
            drains(*old(self), *final(self), outcome),
    {
        if let Some(fault) = self.failure {
            return Err(fault);
        }
        let ghost text = self.text();
        let ghost start = self.pos() as int;
        let mut tokens: Vec<Token<'a>> = Vec::new();
        loop
            invariant_except_break
                self.fault() is None,
                stream(text, start) == views(tokens@) + stream(text, self.pos() as int),
                stream_fault(text, start) == stream_fault(text, self.pos() as int),
                stream_end(text, start) == stream_end(text, self.pos() as int),
            invariant
                self.wf(),
                self.text() == text,
            ensures
                self.pos() == stream_end(text, start),
                self.fault() == stream_fault(text, start),
                views(tokens@) == stream(text, start),
            decreases text.len() - self.pos(),
        {
            proof {
                self.lemma_within();
                lemma_scan_bounds(text, self.pos() as int);
            }
            match self.next() {
                Some(token) => {
                    tokens.push(token);
                    if self.failure.is_some() {
                        break;
                    }
                },
                None => {
                    break;
                },
            }
        }
        match self.failure {
            Some(fault) => Err(fault),
            None => Ok(tokens),
        }
    }
}

impl Location {
    /// The location that follows `input`, found by walking through it.
    pub fn from_input(input: &str) -> (loc: Location)
        ensures
            loc == Location::after(input@),
    {
        let mut lexer = Lexer::new(input);
        while !lexer.is_at_end()
            invariant
                lexer.sound(),
                lexer.text() == input@,
                lexer.pos() <= input@.len(),
            decreases input@.len() - lexer.pos(),
        {
            lexer.scan_char();
        }
        proof {
            assert(input@.take(input@.len() as int) =~= input@);
        }
        lexer.here()
    }
}

} // verus!
