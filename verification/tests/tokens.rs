use orion::error::OrionError;
use orion::lexer::classify::{
    continues_identifier, is_decimal, is_reserved, is_whitespace, is_word_start, needs_lookahead,
    operator, punctuation, starts_identifier,
};
use orion::lexer::cursor::Cursor;
use orion::lexer::encoding::{same_text, utf8_width};
use orion::lexer::grammar::CharClass;
use orion::lexer::tokens::{succ_saturating, Location, Token, TokenKind};

fn token(kind: TokenKind<'_>) -> Token<'_> {
    Token::new(kind, Location::empty())
}

#[test]
fn empty_location() {
    assert_eq!(Location::empty(), Location { line: 0, col: 0 });
    assert_eq!(Location::new(3, 7), Location { line: 3, col: 7 });
}

#[test]
fn location_from_input() {
    assert_eq!(Location::from_input(""), Location { line: 1, col: 1 });
    assert_eq!(Location::from_input("abc"), Location { line: 1, col: 4 });
    assert_eq!(Location::from_input("abc\n"), Location { line: 2, col: 1 });
    assert_eq!(Location::from_input("a\nbc\nd"), Location { line: 3, col: 2 });
    assert_eq!(Location::from_input("\n\n"), Location { line: 3, col: 1 });
}

#[test]
fn location_counts_characters() {
    assert_eq!(Location::from_input("é京"), Location { line: 1, col: 3 });
}

#[test]
fn saturating_successor() {
    assert_eq!(succ_saturating(0), 1);
    assert_eq!(succ_saturating(41), 42);
    assert_eq!(succ_saturating(usize::MAX), usize::MAX);
}

#[test]
fn token_new_keeps_its_parts() {
    let t = Token::new(TokenKind::Semi, Location { line: 2, col: 5 });
    assert_eq!(t.kind, TokenKind::Semi);
    assert_eq!(t.loc, Location { line: 2, col: 5 });
}

#[test]
fn spelling_of_symbols() {
    let table = [
        (TokenKind::LPar, "("),
        (TokenKind::RPar, ")"),
        (TokenKind::LBracket, "["),
        (TokenKind::RBracket, "]"),
        (TokenKind::LBrace, "{"),
        (TokenKind::RBrace, "}"),
        (TokenKind::Eq, "="),
        (TokenKind::EqEq, "=="),
        (TokenKind::Colon, ":"),
        (TokenKind::UntypedAssignment, ":="),
        (TokenKind::Semi, ";"),
        (TokenKind::Dollar, "$"),
        (TokenKind::Comma, ","),
        (TokenKind::RightArrow, "->"),
        (TokenKind::LeftArrow, "<-"),
        (TokenKind::DotDot, ".."),
        (TokenKind::Dot, "."),
        (TokenKind::Tilde, "~"),
        (TokenKind::ColonColon, "::"),
        (TokenKind::Plus, "+"),
        (TokenKind::Increment, "++"),
        (TokenKind::Minus, "-"),
        (TokenKind::Decrement, "--"),
        (TokenKind::Star, "*"),
        (TokenKind::Slash, "/"),
        (TokenKind::Percent, "%"),
        (TokenKind::Ampersand, "&"),
        (TokenKind::Bar, "|"),
        (TokenKind::Hat, "^"),
        (TokenKind::GreaterGreater, ">>"),
        (TokenKind::GreaterEq, ">="),
        (TokenKind::Greater, ">"),
        (TokenKind::LesserLesser, "<<"),
        (TokenKind::LesserEq, "<="),
        (TokenKind::Lesser, "<"),
        (TokenKind::BangEq, "!="),
        (TokenKind::Bang, "!"),
    ];
    for (kind, text) in table {
        assert_eq!(token(kind).to_string(), text);
        assert_eq!(token(kind).length(), text.len());
    }
}

#[test]
fn spelling_of_literals() {
    assert_eq!(token(TokenKind::Comment(" note")).to_string(), "\" note\"");
    assert_eq!(token(TokenKind::Identifier("total")).to_string(), "total");
    assert_eq!(token(TokenKind::Keyword("let")).to_string(), "[let]");
    assert_eq!(token(TokenKind::Number("12_34")).to_string(), "#12_34");
    assert_eq!(token(TokenKind::Quote("\"abc\"")).to_string(), "\"abc\"");
    assert_eq!(token(TokenKind::Eof).to_string(), "not implemented");
    assert_eq!(token(TokenKind::Error).to_string(), "not implemented");
}

#[test]
fn length_counts_bytes_of_the_spelling() {
    assert_eq!(token(TokenKind::Keyword("let")).length(), 5);
    assert_eq!(token(TokenKind::Number("12_34")).length(), 6);
    assert_eq!(token(TokenKind::Comment("")).length(), 2);
    assert_eq!(token(TokenKind::Identifier("é京")).length(), 5);
    assert_eq!(token(TokenKind::Eof).length(), 15);
}

#[test]
fn error_messages() {
    assert_eq!(OrionError::Unimplemented.message(), "not implemented.");
    assert_eq!(OrionError::IOError.message(), "file not found.");
    assert_eq!(OrionError::LexerError.message(), "there was an error in lexing.");
    assert_eq!(OrionError::UnknownCharacter('#').message(), "There was an unknown character.");
    assert_eq!(OrionError::UnterminatedQuote.message(), "There was an unterminated quote.");
    assert_eq!(
        OrionError::UnclosedMultilineComment.message(),
        "A multiline comment was unclosed."
    );
}

#[test]
fn whitespace_and_digits() {
    assert!(is_whitespace(' '));
    assert!(is_whitespace('\t'));
    assert!(is_whitespace('\r'));
    assert!(!is_whitespace('\n'));
    assert!(!is_whitespace('a'));
    assert!(is_decimal('0'));
    assert!(is_decimal('9'));
    assert!(!is_decimal('/'));
    assert!(!is_decimal(':'));
    assert!(!is_decimal('٣'));
}

#[test]
fn identifier_characters() {
    assert!(starts_identifier('x', true));
    assert!(starts_identifier('_', false));
    assert!(!starts_identifier('7', false));
    assert!(!starts_identifier('-', false));
    assert!(continues_identifier('x', true));
    assert!(continues_identifier('_', false));
    assert!(continues_identifier('7', false));
    assert!(!continues_identifier('-', false));
    assert!(is_word_start('x'));
    assert!(is_word_start('京'));
    assert!(is_word_start('_'));
    assert!(!is_word_start('7'));
    assert!(!is_word_start('#'));
    assert!(!is_word_start('💝'));
}

#[test]
fn characters_that_open_a_pair() {
    for chr in [':', '-', '<', '>', '.', '+', '/', '!', '='] {
        assert!(needs_lookahead(chr));
    }
    for chr in ['(', ';', '*', 'a', '1', '"', ' '] {
        assert!(!needs_lookahead(chr));
    }
}

#[test]
fn character_classes() {
    assert!(CharClass::Blank.test('\n'));
    assert!(!CharClass::Blank.test('x'));
    assert!(CharClass::Word.test('x'));
    assert!(CharClass::Word.test('_'));
    assert!(CharClass::Word.test('7'));
    assert!(CharClass::Word.test('é'));
    assert!(!CharClass::Word.test('-'));
    assert!(CharClass::Numeric.test('.'));
    assert!(CharClass::Numeric.test('_'));
    assert!(!CharClass::Numeric.test('x'));
    assert!(CharClass::Quoted.test('\n'));
    assert!(!CharClass::Quoted.test('"'));
    assert!(CharClass::Line.test('"'));
    assert!(!CharClass::Line.test('\n'));
}

#[test]
fn reserved_words() {
    assert!(is_reserved("let"));
    assert!(is_reserved("return"));
    assert!(!is_reserved("Let"));
    assert!(!is_reserved("le"));
    assert!(!is_reserved("lets"));
    assert!(!is_reserved(""));
}

#[test]
fn symbol_tables() {
    assert_eq!(punctuation('('), Some(TokenKind::LPar));
    assert_eq!(punctuation('!'), Some(TokenKind::Bang));
    assert_eq!(punctuation('#'), None);
    assert_eq!(punctuation('"'), None);
    assert_eq!(operator(':', '='), Some(TokenKind::UntypedAssignment));
    assert_eq!(operator('=', ':'), None);
    assert_eq!(operator('/', '/'), None);
}

#[test]
fn same_text_compares_characters() {
    assert!(same_text("", ""));
    assert!(same_text("京", "京"));
    assert!(!same_text("abc", "abd"));
    assert!(!same_text("abc", "ab"));
}

#[test]
fn widths_of_characters() {
    assert_eq!(utf8_width('a'), 1);
    assert_eq!(utf8_width('\u{7f}'), 1);
    assert_eq!(utf8_width('é'), 2);
    assert_eq!(utf8_width('\u{7ff}'), 2);
    assert_eq!(utf8_width('京'), 3);
    assert_eq!(utf8_width('\u{ffff}'), 3);
    assert_eq!(utf8_width('💝'), 4);
    for c in ['a', 'é', '京', '💝'] {
        assert_eq!(utf8_width(c), c.len_utf8());
    }
}

#[test]
fn cursor_walks_the_text() {
    let mut cursor = Cursor::new("aé京");
    assert_eq!(cursor.current(), 'a');
    assert_eq!(cursor.offset(), 0);
    assert_eq!(cursor.peek(), Some('é'));
    cursor.advance();
    assert_eq!(cursor.current(), 'é');
    assert_eq!(cursor.offset(), 1);
    assert_eq!(cursor.peek(), Some('京'));
    cursor.advance();
    assert_eq!(cursor.current(), '京');
    assert_eq!(cursor.offset(), 3);
    assert_eq!(cursor.peek(), None);
    assert!(!cursor.is_at_end());
    cursor.advance();
    assert!(cursor.is_at_end());
    assert_eq!(cursor.current(), '\0');
    assert_eq!(cursor.offset(), 6);
    assert_eq!(cursor.peek(), None);
    cursor.advance();
    assert!(cursor.is_at_end());
    assert_eq!(cursor.offset(), 6);
}

#[test]
fn cursor_on_empty_text() {
    let mut cursor = Cursor::new("");
    assert!(cursor.is_at_end());
    assert_eq!(cursor.current(), '\0');
    assert_eq!(cursor.peek(), None);
    cursor.advance();
    assert_eq!(cursor.offset(), 0);
}

#[test]
fn cursor_cuts_between_marks() {
    let mut cursor = Cursor::new("aé京b");
    let start = cursor.mark();
    cursor.advance();
    let first = cursor.mark();
    cursor.advance();
    cursor.advance();
    let third = cursor.mark();
    assert_eq!(cursor.between(start, first), "a");
    assert_eq!(cursor.between(first, third), "é京");
    assert_eq!(cursor.between(start, third), "aé京");
    assert_eq!(cursor.between(third, third), "");
}
