//! Laws of the lexer: what holds of every text, proved from the grammar.
use crate::error::OrionError;
use crate::lexer::grammar::{
    compound, emit, is_blank, is_digit, lemma_closer_is, lemma_closer_missing,
    lemma_run_end_is, lemma_scan_bounds, locate, reject, run_end, scan, starts_word, stream,
    stream_end, stream_fault, symbol, CharClass,
};
use crate::lexer::state::{drains, views, yields, Lexer};
use crate::lexer::tokens::{line_breaks, line_tail, Location, SpecKind, SpecToken, Token};
use vstd::prelude::*;

verus! {

/// The kinds of a sequence of tokens.
pub open spec fn kinds(tokens: Seq<SpecToken>) -> Seq<SpecKind> {
    tokens.map_values(|token: SpecToken| token.kind)
}

/// The test for a character that is not a blank.
pub open spec fn visible() -> spec_fn(char) -> bool {
    |c: char| !is_blank(c)
}

/// The table of single-character tokens, as a function.
pub open spec fn symbol_of() -> spec_fn(char) -> Option<SpecKind> {
    |c: char| symbol(c)
}

/// Whether `first` and `second` open a comment.
pub open spec fn opens_comment(first: char, second: char) -> bool {
    first == '/' && (second == '/' || second == '*')
}

/// The text holds blanks and punctuation only, and no two neighbours in it
/// form a compound operator or open a comment.
pub open spec fn is_spaced_punctuation(text: Seq<char>) -> bool {
    &&& forall|i: int|
        0 <= i < text.len() ==> is_blank(#[trigger] text[i]) || symbol(text[i]) is Some
    &&& forall|i: int|
        0 <= i && i + 1 < text.len() ==> compound(#[trigger] text[i], text[i + 1]) is None
            && !opens_comment(text[i], text[i + 1])
}

proof fn lemma_filter_map_front(s: Seq<char>, f: spec_fn(char) -> Option<SpecKind>)
    requires
        s.len() > 0,
    ensures
        s.filter_map(f) == match f(s[0]) {
            Some(kind) => seq![kind] + s.drop_first().filter_map(f),
            None => s.drop_first().filter_map(f),
        },
    decreases s.len(),
{
    if s.len() == 1 {
        assert(s.drop_last().filter_map(f) =~= Seq::<SpecKind>::empty());
    } else {
        lemma_filter_map_front(s.drop_last(), f);
        assert(s.drop_last().drop_first() =~= s.drop_first().drop_last());
    }
}

proof fn lemma_filter_front(s: Seq<char>, pred: spec_fn(char) -> bool)
    requires
        s.len() > 0,
    ensures
        s.filter(pred) == if pred(s[0]) {
            seq![s[0]] + s.drop_first().filter(pred)
        } else {
            s.drop_first().filter(pred)
        },
{
    assert(s =~= seq![s[0]] + s.drop_first());
    reveal_with_fuel(Seq::filter, 2);
}

proof fn lemma_punctuation_from(text: Seq<char>, pos: int)
    requires
        is_spaced_punctuation(text),
        0 <= pos <= text.len(),
    ensures
        stream_fault(text, pos) is None,
        kinds(stream(text, pos)) == text.skip(pos).filter_map(symbol_of()),
        stream(text, pos).len() == text.skip(pos).filter(visible()).len(),
    decreases text.len() - pos,
{
    if pos < text.len() {
        let rest = text.skip(pos);
        lemma_scan_bounds(text, pos + 1);
        lemma_punctuation_from(text, pos + 1);
        lemma_filter_map_front(rest, symbol_of());
        lemma_filter_front(rest, visible());
        assert(rest.drop_first() =~= text.skip(pos + 1));
    }
}

/// A text of blanks and punctuation in which no two neighbours join lexes
/// without an error into one token for each character that is not a blank,
/// and the kind of each token is that of its character.
pub proof fn lemma_punctuation_lexes_one_to_one(text: Seq<char>)
    requires
        is_spaced_punctuation(text),
    ensures
        stream_fault(text, 0) is None,
        kinds(stream(text, 0)) == text.filter_map(symbol_of()),
        stream(text, 0).len() == text.filter(visible()).len(),
{
    lemma_punctuation_from(text, 0);
    assert(text.skip(0) =~= text);
}

/// Two characters of the compound-operator table lex into one token, which
/// spans both of them.
pub proof fn lemma_compound_is_one_token(first: char, second: char)
    requires
        compound(first, second) is Some,
    ensures
        stream(seq![first, second], 0) == seq![
            SpecToken { kind: compound(first, second)->0, loc: Location { line: 1, col: 1 } },
        ],
        stream_end(seq![first, second], 0) == 2,
        stream_fault(seq![first, second], 0) is None,
{
    reveal_with_fuel(stream, 2);
    reveal_with_fuel(stream_end, 2);
    reveal_with_fuel(stream_fault, 2);
}

/// Wherever a compound operator stands in a text, the lexer takes both of
/// its characters for one token.
pub proof fn lemma_compound_in_context(text: Seq<char>, start: int)
    requires
        0 <= start,
        start + 1 < text.len(),
        compound(text[start], text[start + 1]) is Some,
    ensures
        scan(text, start) == emit(
            text,
            compound(text[start], text[start + 1])->0,
            start,
            start + 2,
        ),
{
}

/// A character that the lexer takes for the start of an identifier: it may
/// start a word, and it is no blank, no quote and no punctuation.
pub open spec fn leads_word(c: char) -> bool {
    starts_word(c) && !is_blank(c) && c != '"' && symbol(c) is None
}

/// The characters from `start` up to `end` are a run in the shape of an
/// identifier, as long as it can be.
pub open spec fn is_word(text: Seq<char>, start: int, end: int) -> bool {
    &&& 0 <= start < end <= text.len()
    &&& leads_word(text[start])
    &&& forall|i: int| start <= i < end ==> CharClass::Word.admits(#[trigger] text[i])
    &&& end < text.len() ==> !CharClass::Word.admits(text[end])
}

/// A run in the shape of an identifier lexes into one token that carries
/// the run: a keyword for `let` and for `return`, and an identifier for
/// every other run.
pub proof fn lemma_word_is_one_token(text: Seq<char>, start: int, end: int)
    requires
        is_word(text, start, end),
    ensures
        scan(text, start).next == end,
        scan(text, start).token.loc == locate(text, start),
        scan(text, start).fault is None,
        scan(text, start).token.kind == if text.subrange(start, end) == seq!['l', 'e', 't']
            || text.subrange(start, end) == seq!['r', 'e', 't', 'u', 'r', 'n'] {
            SpecKind::Keyword(text.subrange(start, end))
        } else {
            SpecKind::Identifier(text.subrange(start, end))
        },
{
    lemma_run_end_is(text, start, CharClass::Word, end);
}

/// A quoted string that is closed lexes into one token, whose text runs
/// from the opening quote through the closing one.
pub proof fn lemma_closed_quote_is_one_token(text: Seq<char>, start: int, close: int)
    requires
        0 <= start < close < text.len(),
        text[start] == '"',
        text[close] == '"',
        forall|i: int| start < i < close ==> #[trigger] text[i] != '"',
    ensures
        scan(text, start) == emit(
            text,
            SpecKind::Quote(text.subrange(start, close + 1)),
            start,
            close + 1,
        ),
{
    lemma_run_end_is(text, start + 1, CharClass::Quoted, close);
}

/// A quoted string that is not closed before the input ends is an error,
/// met at the end of the input, and no token follows it.
pub proof fn lemma_open_quote_is_an_error(text: Seq<char>, start: int)
    requires
        0 <= start < text.len(),
        text[start] == '"',
        forall|i: int| start < i < text.len() ==> #[trigger] text[i] != '"',
    ensures
        scan(text, start) == reject(text, OrionError::UnterminatedQuote, text.len() as int),
        stream(text, start) == seq![scan(text, start).token],
        stream_fault(text, start) == Some(OrionError::UnterminatedQuote),
{
    lemma_run_end_is(text, start + 1, CharClass::Quoted, text.len() as int);
}

/// A block comment that is closed lexes into one token, whose text is what
/// stands between the opener and the first closer.
pub proof fn lemma_closed_comment_is_one_token(text: Seq<char>, start: int, close: int)
    requires
        0 <= start,
        start + 2 <= close,
        close + 1 < text.len(),
        text[start] == '/',
        text[start + 1] == '*',
        text[close] == '*',
        text[close + 1] == '/',
        forall|i: int|
            start + 2 <= i < close ==> !(#[trigger] text[i] == '*' && text[i + 1] == '/'),
    ensures
        scan(text, start) == emit(
            text,
            SpecKind::Comment(text.subrange(start + 2, close)),
            start,
            close + 2,
        ),
{
    lemma_closer_is(text, start + 2, close);
}

/// A block comment that is not closed before the input ends is an error,
/// met at the end of the input, and no token follows it.
pub proof fn lemma_open_comment_is_an_error(text: Seq<char>, start: int)
    requires
        0 <= start,
        start + 1 < text.len(),
        text[start] == '/',
        text[start + 1] == '*',
        forall|i: int|
            start + 2 <= i && i + 1 < text.len() ==> !(#[trigger] text[i] == '*' && text[i + 1]
                == '/'),
    ensures
        scan(text, start) == reject(text, OrionError::UnclosedMultilineComment, text.len() as int),
        stream(text, start) == seq![scan(text, start).token],
        stream_fault(text, start) == Some(OrionError::UnclosedMultilineComment),
{
    lemma_closer_missing(text, start + 2);
}

/// A character that starts no token is an error at its own place, where
/// the lexer stays, and no token follows it.
pub proof fn lemma_unknown_character_is_an_error(text: Seq<char>, start: int)
    requires
        0 <= start < text.len(),
        !is_blank(text[start]),
        text[start] != '"',
        symbol(text[start]) is None,
        !starts_word(text[start]),
        !is_digit(text[start]),
    ensures
        scan(text, start) == reject(text, OrionError::UnknownCharacter(text[start]), start),
        stream(text, start) == seq![scan(text, start).token],
        stream_fault(text, start) == Some(OrionError::UnknownCharacter(text[start])),
{
}

/// One step is a function of the text, the position and the error met so
/// far: two lexers that agree on these hand out the same token and agree
/// on them afterwards.
pub proof fn lemma_step_is_deterministic(
    a: Lexer,
    a_after: Lexer,
    a_token: Token,
    b: Lexer,
    b_after: Lexer,
    b_token: Token,
)
    requires
        a.text() == b.text(),
        a.pos() == b.pos(),
        a.fault() == b.fault(),
        yields(a, a_after, a_token, a.upcoming()),
        yields(b, b_after, b_token, b.upcoming()),
    ensures
        a_token@ == b_token@,
        a_after.text() == b_after.text(),
        a_after.pos() == b_after.pos(),
        a_after.fault() == b_after.fault(),
{
}

/// Lexing is a function of the text: two lexers over the same text, both
/// fresh or both in the same state, come to the same outcome, be it the
/// same error or the same sequence of tokens.
pub proof fn lemma_lexing_is_deterministic(
    a: Lexer,
    a_after: Lexer,
    a_outcome: Result<Vec<Token>, OrionError>,
    b: Lexer,
    b_after: Lexer,
    b_outcome: Result<Vec<Token>, OrionError>,
)
    requires
        a.text() == b.text(),
        a.pos() == b.pos(),
        a.fault() == b.fault(),
        drains(a, a_after, a_outcome),
        drains(b, b_after, b_outcome),
    ensures
        a_after.pos() == b_after.pos(),
        a_after.fault() == b_after.fault(),
        match (a_outcome, b_outcome) {
            (Ok(x), Ok(y)) => views(x@) == views(y@),
            (Err(e), Err(f)) => e == f,
            _ => false,
        },
{
}

proof fn lemma_line_counts_grow(text: Seq<char>, i: int, j: int)
    requires
        0 <= i <= j <= text.len(),
    ensures
        line_breaks(text.take(i)) <= line_breaks(text.take(j)),
        line_breaks(text.take(i)) == line_breaks(text.take(j)) ==> line_tail(text.take(j))
            == line_tail(text.take(i)) + (j - i),
    decreases j - i,
{
    if i < j {
        lemma_line_counts_grow(text, i, j - 1);
        assert(text.take(j).drop_last() =~= text.take(j - 1));
    }
}

/// Locations never decrease as scanning proceeds: a later position is on a
/// later line, or on the same line and no earlier in it. (On the largest
/// line that a location can name, where line numbers are held, columns may
/// start again.)
pub proof fn lemma_locations_never_decrease(text: Seq<char>, i: int, j: int)
    requires
        0 <= i <= j <= text.len(),
    ensures
        locate(text, i).line < locate(text, j).line || (locate(text, i).line == locate(
            text,
            j,
        ).line && (locate(text, i).col <= locate(text, j).col || locate(text, j).line
            == usize::MAX)),
{
    lemma_line_counts_grow(text, i, j);
}

/// The first character of a text is on line one, in column one.
pub proof fn lemma_text_starts_at_one_one(text: Seq<char>)
    ensures
        locate(text, 0) == (Location { line: 1, col: 1 }),
{
}

/// The text of a literal is a piece of the input, and exactly what the
/// lexer consumed for it: the whole of the token for an identifier, a
/// keyword, a number and a quoted string, and for a comment what follows its
/// opener, without the closer of a block comment.
pub proof fn lemma_literal_text_is_consumed(text: Seq<char>, pos: int)
    requires
        0 <= pos <= text.len(),
    ensures
        ({
            let start = run_end(text, pos, CharClass::Blank);
            let step = scan(text, pos);
            match step.token.kind {
                SpecKind::Identifier(word) | SpecKind::Keyword(word) | SpecKind::Number(word)
                | SpecKind::Quote(word) => word == text.subrange(start, step.next),
                SpecKind::Comment(word) => word == text.subrange(start + 2, step.next) || word
                    == text.subrange(start + 2, step.next - 2),
                _ => true,
            }
        }),
{
}

} // verus!
