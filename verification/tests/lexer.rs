use orion::error::OrionError;
use orion::lexer::state::Lexer;
use orion::lexer::tokens::{Location, Token, TokenKind};

fn kinds_of(input: &str) -> Vec<TokenKind<'_>> {
    let mut lexer = Lexer::new(input);
    let mut kinds = Vec::new();
    loop {
        let token = lexer.next_token();
        let kind = token.kind;
        kinds.push(kind);
        if kind == TokenKind::Eof || kind == TokenKind::Error {
            return kinds;
        }
    }
}

fn at(line: usize, col: usize) -> Location {
    Location { line, col }
}

#[test]
fn let_statement_scenario() {
    assert_eq!(
        kinds_of("let x := 12_34;"),
        vec![
            TokenKind::Keyword("let"),
            TokenKind::Identifier("x"),
            TokenKind::UntypedAssignment,
            TokenKind::Number("12_34"),
            TokenKind::Semi,
            TokenKind::Eof,
        ]
    );
}

#[test]
fn let_statement_locations() {
    let mut lexer = Lexer::new("let x := 12_34;");
    assert_eq!(lexer.next_token().loc, at(1, 1));
    assert_eq!(lexer.next_token().loc, at(1, 5));
    assert_eq!(lexer.next_token().loc, at(1, 7));
    assert_eq!(lexer.next_token().loc, at(1, 10));
    assert_eq!(lexer.next_token().loc, at(1, 15));
    assert_eq!(lexer.next_token(), Token { kind: TokenKind::Eof, loc: at(1, 16) });
    assert!(!lexer.error());
}

#[test]
fn arrow_scenario() {
    assert_eq!(
        kinds_of("a -> b"),
        vec![
            TokenKind::Identifier("a"),
            TokenKind::RightArrow,
            TokenKind::Identifier("b"),
            TokenKind::Eof,
        ]
    );
}

#[test]
fn unknown_character_scenario() {
    let mut lexer = Lexer::new("#");
    let token = lexer.next();
    assert_eq!(token, Some(Token { kind: TokenKind::Error, loc: at(1, 1) }));
    assert!(lexer.error());
    assert_eq!(lexer.failure(), Some(OrionError::UnknownCharacter('#')));
    assert_eq!(lexer.next(), None);
    assert_eq!(lexer.next(), None);
}

#[test]
fn unknown_character_is_not_consumed() {
    let mut lexer = Lexer::new("  #x");
    assert_eq!(lexer.next_token(), Token { kind: TokenKind::Error, loc: at(1, 3) });
    assert_eq!(lexer.next_token(), Token { kind: TokenKind::Error, loc: at(1, 3) });
    assert_eq!(lexer.failure(), Some(OrionError::UnknownCharacter('#')));
}

#[test]
fn every_punctuation_character() {
    let input = "()[]{}=:;$,.~*/%&|^+-<>!";
    // a blank between neighbours keeps any two of them from joining
    let spaced: String = input.chars().flat_map(|c| [c, ' ']).collect();
    let kinds = kinds_of(&spaced);
    assert_eq!(
        kinds,
        vec![
            TokenKind::LPar,
            TokenKind::RPar,
            TokenKind::LBracket,
            TokenKind::RBracket,
            TokenKind::LBrace,
            TokenKind::RBrace,
            TokenKind::Eq,
            TokenKind::Colon,
            TokenKind::Semi,
            TokenKind::Dollar,
            TokenKind::Comma,
            TokenKind::Dot,
            TokenKind::Tilde,
            TokenKind::Star,
            TokenKind::Slash,
            TokenKind::Percent,
            TokenKind::Ampersand,
            TokenKind::Bar,
            TokenKind::Hat,
            TokenKind::Plus,
            TokenKind::Minus,
            TokenKind::Lesser,
            TokenKind::Greater,
            TokenKind::Bang,
            TokenKind::Eof,
        ]
    );
    assert_eq!(kinds.len() - 1, input.chars().count());
}

#[test]
fn punctuation_without_blanks() {
    assert_eq!(
        kinds_of("(){};,"),
        vec![
            TokenKind::LPar,
            TokenKind::RPar,
            TokenKind::LBrace,
            TokenKind::RBrace,
            TokenKind::Semi,
            TokenKind::Comma,
            TokenKind::Eof,
        ]
    );
}

#[test]
fn every_compound_operator() {
    let table = [
        (":=", TokenKind::UntypedAssignment),
        ("::", TokenKind::ColonColon),
        ("->", TokenKind::RightArrow),
        ("<-", TokenKind::LeftArrow),
        ("<<", TokenKind::LesserLesser),
        ("<=", TokenKind::LesserEq),
        (">>", TokenKind::GreaterGreater),
        (">=", TokenKind::GreaterEq),
        ("++", TokenKind::Increment),
        ("--", TokenKind::Decrement),
        ("==", TokenKind::EqEq),
        ("!=", TokenKind::BangEq),
        ("..", TokenKind::DotDot),
    ];
    for (input, kind) in table {
        let mut lexer = Lexer::new(input);
        assert_eq!(lexer.next_token(), Token { kind, loc: at(1, 1) });
        assert_eq!(lexer.next_token(), Token { kind: TokenKind::Eof, loc: at(1, 3) });
    }
}

#[test]
fn compound_operator_takes_the_first_pair() {
    assert_eq!(
        kinds_of(":::"),
        vec![TokenKind::ColonColon, TokenKind::Colon, TokenKind::Eof]
    );
    assert_eq!(
        kinds_of("-->"),
        vec![TokenKind::Decrement, TokenKind::Greater, TokenKind::Eof]
    );
    assert_eq!(kinds_of(": ="), vec![TokenKind::Colon, TokenKind::Eq, TokenKind::Eof]);
}

#[test]
fn identifiers_and_keywords() {
    assert_eq!(
        kinds_of("let return lets _x a1_b Let"),
        vec![
            TokenKind::Keyword("let"),
            TokenKind::Keyword("return"),
            TokenKind::Identifier("lets"),
            TokenKind::Identifier("_x"),
            TokenKind::Identifier("a1_b"),
            TokenKind::Identifier("Let"),
            TokenKind::Eof,
        ]
    );
}

#[test]
fn identifier_beyond_ascii() {
    let mut lexer = Lexer::new("é京 = ñ");
    assert_eq!(lexer.next_token(), Token { kind: TokenKind::Identifier("é京"), loc: at(1, 1) });
    assert_eq!(lexer.next_token(), Token { kind: TokenKind::Eq, loc: at(1, 4) });
    assert_eq!(lexer.next_token(), Token { kind: TokenKind::Identifier("ñ"), loc: at(1, 6) });
    assert_eq!(lexer.next_token(), Token { kind: TokenKind::Eof, loc: at(1, 7) });
}

#[test]
fn numbers_are_taken_loosely() {
    assert_eq!(
        kinds_of("1.2.3 1_ 42"),
        vec![
            TokenKind::Number("1.2.3"),
            TokenKind::Number("1_"),
            TokenKind::Number("42"),
            TokenKind::Eof,
        ]
    );
}

#[test]
fn number_then_identifier() {
    assert_eq!(
        kinds_of("12ab"),
        vec![TokenKind::Number("12"), TokenKind::Identifier("ab"), TokenKind::Eof]
    );
}

#[test]
fn closed_quote() {
    let mut lexer = Lexer::new("\"abc\"");
    assert_eq!(lexer.next(), Some(Token { kind: TokenKind::Quote("\"abc\""), loc: at(1, 1) }));
    assert_eq!(lexer.next(), None);
    assert!(!lexer.error());
}

#[test]
fn empty_quote() {
    assert_eq!(kinds_of("\"\""), vec![TokenKind::Quote("\"\""), TokenKind::Eof]);
}

#[test]
fn quote_may_span_lines() {
    let mut lexer = Lexer::new("\"a\nb\" x");
    assert_eq!(lexer.next_token(), Token { kind: TokenKind::Quote("\"a\nb\""), loc: at(1, 1) });
    assert_eq!(lexer.next_token(), Token { kind: TokenKind::Identifier("x"), loc: at(2, 4) });
}

#[test]
fn unterminated_quote() {
    let mut lexer = Lexer::new("\"abc");
    assert_eq!(lexer.next(), Some(Token { kind: TokenKind::Error, loc: at(1, 5) }));
    assert!(lexer.error());
    assert_eq!(lexer.failure(), Some(OrionError::UnterminatedQuote));
    assert_eq!(lexer.next(), None);
}

#[test]
fn closed_block_comment() {
    let mut lexer = Lexer::new("/* closed */");
    assert_eq!(lexer.next(), Some(Token { kind: TokenKind::Comment(" closed "), loc: at(1, 1) }));
    assert_eq!(lexer.next(), None);
    assert!(!lexer.error());
}

#[test]
fn empty_block_comment() {
    assert_eq!(kinds_of("/**/"), vec![TokenKind::Comment(""), TokenKind::Eof]);
}

#[test]
fn block_comment_with_stars() {
    assert_eq!(kinds_of("/***/ x"), vec![
        TokenKind::Comment("*"),
        TokenKind::Identifier("x"),
        TokenKind::Eof,
    ]);
    assert_eq!(kinds_of("/* a * / b */"), vec![TokenKind::Comment(" a * / b "), TokenKind::Eof]);
}

#[test]
fn unterminated_block_comment() {
    let mut lexer = Lexer::new("/* unterminated");
    assert_eq!(lexer.next(), Some(Token { kind: TokenKind::Error, loc: at(1, 16) }));
    assert!(lexer.error());
    assert_eq!(lexer.failure(), Some(OrionError::UnclosedMultilineComment));
    assert_eq!(lexer.next(), None);
}

#[test]
fn opener_does_not_close_itself() {
    let mut lexer = Lexer::new("/*/");
    assert_eq!(lexer.next_token().kind, TokenKind::Error);
    assert_eq!(lexer.failure(), Some(OrionError::UnclosedMultilineComment));
}

#[test]
fn line_comment() {
    let mut lexer = Lexer::new("x // note\ny");
    assert_eq!(lexer.next_token(), Token { kind: TokenKind::Identifier("x"), loc: at(1, 1) });
    assert_eq!(lexer.next_token(), Token { kind: TokenKind::Comment(" note"), loc: at(1, 3) });
    assert_eq!(lexer.next_token(), Token { kind: TokenKind::Identifier("y"), loc: at(2, 1) });
    assert_eq!(lexer.next_token(), Token { kind: TokenKind::Eof, loc: at(2, 2) });
}

#[test]
fn line_comment_at_end_of_input() {
    assert_eq!(kinds_of("//"), vec![TokenKind::Comment(""), TokenKind::Eof]);
    assert_eq!(kinds_of("//x"), vec![TokenKind::Comment("x"), TokenKind::Eof]);
}

#[test]
fn slash_alone_is_an_operator() {
    assert_eq!(
        kinds_of("a / b"),
        vec![
            TokenKind::Identifier("a"),
            TokenKind::Slash,
            TokenKind::Identifier("b"),
            TokenKind::Eof,
        ]
    );
    assert_eq!(kinds_of("/"), vec![TokenKind::Slash, TokenKind::Eof]);
}

#[test]
fn empty_input() {
    let mut lexer = Lexer::new("");
    assert_eq!(lexer.next_token(), Token { kind: TokenKind::Eof, loc: at(1, 1) });
    assert_eq!(lexer.next_token(), Token { kind: TokenKind::Eof, loc: at(1, 1) });
    assert_eq!(lexer.next(), None);
    assert!(!lexer.error());
}

#[test]
fn blank_input() {
    let mut lexer = Lexer::new(" \t\r\n  ");
    assert_eq!(lexer.next_token(), Token { kind: TokenKind::Eof, loc: at(2, 3) });
}

#[test]
fn lines_and_columns() {
    let mut lexer = Lexer::new("a\n  b\n\nc");
    assert_eq!(lexer.next_token().loc, at(1, 1));
    assert_eq!(lexer.next_token().loc, at(2, 3));
    assert_eq!(lexer.next_token().loc, at(4, 1));
    assert_eq!(lexer.location(), at(4, 2));
}

#[test]
fn null_character_is_unknown() {
    let mut lexer = Lexer::new("a\0b");
    assert_eq!(lexer.next_token().kind, TokenKind::Identifier("a"));
    assert_eq!(lexer.next_token(), Token { kind: TokenKind::Error, loc: at(1, 2) });
    assert_eq!(lexer.failure(), Some(OrionError::UnknownCharacter('\0')));
}

#[test]
fn lexing_twice_gives_the_same_tokens() {
    let input = "let total := price * 3 // cost\nreturn total;";
    let first = Lexer::new(input).lex();
    let second = Lexer::new(input).lex();
    assert_eq!(first, second);
    let copy = String::from(input);
    let third = Lexer::new(&copy).lex();
    assert_eq!(first, third);
}

#[test]
fn lex_collects_the_stream() {
    let mut lexer = Lexer::new("a -> b");
    assert_eq!(
        lexer.lex(),
        Ok(vec![
            Token { kind: TokenKind::Identifier("a"), loc: at(1, 1) },
            Token { kind: TokenKind::RightArrow, loc: at(1, 3) },
            Token { kind: TokenKind::Identifier("b"), loc: at(1, 6) },
        ])
    );
    assert!(!lexer.error());
    assert_eq!(lexer.lex(), Ok(vec![]));
}

#[test]
fn lex_reports_the_first_error() {
    let mut lexer = Lexer::new("a # \"b");
    assert_eq!(lexer.lex(), Err(OrionError::UnknownCharacter('#')));
    assert!(lexer.error());
    assert_eq!(lexer.lex(), Err(OrionError::UnknownCharacter('#')));
    assert_eq!(Lexer::new("x \"b").lex(), Err(OrionError::UnterminatedQuote));
    assert_eq!(Lexer::new("x /* b").lex(), Err(OrionError::UnclosedMultilineComment));
}

#[test]
fn next_stops_after_an_error() {
    let mut lexer = Lexer::new("a # b");
    assert_eq!(lexer.next().map(|t| t.kind), Some(TokenKind::Identifier("a")));
    assert_eq!(lexer.next().map(|t| t.kind), Some(TokenKind::Error));
    assert_eq!(lexer.next(), None);
    assert_eq!(lexer.next(), None);
}
