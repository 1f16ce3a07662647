//! The token model: kinds of token, source locations, and tokens themselves.
use vstd::prelude::*;
use vstd::string::StringExecFns;
use vstd::utf8::encode_utf8;

verus! {

/// The kind of a token. Literal classes borrow their text from the input.
#[derive(Debug, Clone, Copy, Eq, PartialEq)]
pub enum TokenKind<'tok> {
    LPar,  // (
    RPar,  // )
    LBracket,  // [
    RBracket,  // ]
    LBrace,  // {
    RBrace,  // }
    Eq,  // =
    Colon,  // :
    UntypedAssignment,  // :=
    Semi,  // ;
    Dollar,  // $
    Comma,  // ,
    RightArrow,  // ->
    LeftArrow,  // <-
    DotDot,  // ..
    Dot,  // .
    Tilde,  // ~
    ColonColon,  // ::
    // Literals
    Comment(&'tok str),
    Identifier(&'tok str),
    Keyword(&'tok str),
    Number(&'tok str),
    Quote(&'tok str),
    // Operators
    Plus,  // +
    Increment,  // ++
    Minus,  // -
    Decrement,  // --
    Star,  // *
    Slash,  // /
    Percent,  // %
    Ampersand,  // &
    Bar,  // |
    Hat,  // ^
    GreaterGreater,  // >>
    GreaterEq,  // >=
    Greater,  // >
    LesserLesser,  // <<
    LesserEq,  // <=
    Lesser,  // <
    EqEq,  // ==
    BangEq,  // !=
    Bang,  // !
    Eof,
    Error,
}

/// The mathematical model of a [`TokenKind`]: the same variants, with the
/// text of a literal as a sequence of characters.
pub enum SpecKind {
    LPar,
    RPar,
    LBracket,
    RBracket,
    LBrace,
    RBrace,
    Eq,
    Colon,
    UntypedAssignment,
    Semi,
    Dollar,
    Comma,
    RightArrow,
    LeftArrow,
    DotDot,
    Dot,
    Tilde,
    ColonColon,
    Comment(Seq<char>),
    Identifier(Seq<char>),
    Keyword(Seq<char>),
    Number(Seq<char>),
    Quote(Seq<char>),
    Plus,
    Increment,
    Minus,
    Decrement,
    Star,
    Slash,
    Percent,
    Ampersand,
    Bar,
    Hat,
    GreaterGreater,
    GreaterEq,
    Greater,
    LesserLesser,
    LesserEq,
    Lesser,
    EqEq,
    BangEq,
    Bang,
    Eof,
    Error,
}

impl<'tok> View for TokenKind<'tok> {
    type V = SpecKind;

    open spec fn view(&self) -> SpecKind {
        match *self {
            TokenKind::LPar => SpecKind::LPar,
            TokenKind::RPar => SpecKind::RPar,
            TokenKind::LBracket => SpecKind::LBracket,
            TokenKind::RBracket => SpecKind::RBracket,
            TokenKind::LBrace => SpecKind::LBrace,
            TokenKind::RBrace => SpecKind::RBrace,
            TokenKind::Eq => SpecKind::Eq,
            TokenKind::Colon => SpecKind::Colon,
            TokenKind::UntypedAssignment => SpecKind::UntypedAssignment,
            TokenKind::Semi => SpecKind::Semi,
            TokenKind::Dollar => SpecKind::Dollar,
            TokenKind::Comma => SpecKind::Comma,
            TokenKind::RightArrow => SpecKind::RightArrow,
            TokenKind::LeftArrow => SpecKind::LeftArrow,
            TokenKind::DotDot => SpecKind::DotDot,
            TokenKind::Dot => SpecKind::Dot,
            TokenKind::Tilde => SpecKind::Tilde,
            TokenKind::ColonColon => SpecKind::ColonColon,
            TokenKind::Comment(text) => SpecKind::Comment(text@),
            TokenKind::Identifier(text) => SpecKind::Identifier(text@),
            TokenKind::Keyword(text) => SpecKind::Keyword(text@),
            TokenKind::Number(text) => SpecKind::Number(text@),
            TokenKind::Quote(text) => SpecKind::Quote(text@),
            TokenKind::Plus => SpecKind::Plus,
            TokenKind::Increment => SpecKind::Increment,
            TokenKind::Minus => SpecKind::Minus,
            TokenKind::Decrement => SpecKind::Decrement,
            TokenKind::Star => SpecKind::Star,
            TokenKind::Slash => SpecKind::Slash,
            TokenKind::Percent => SpecKind::Percent,
            TokenKind::Ampersand => SpecKind::Ampersand,
            TokenKind::Bar => SpecKind::Bar,
            TokenKind::Hat => SpecKind::Hat,
            TokenKind::GreaterGreater => SpecKind::GreaterGreater,
            TokenKind::GreaterEq => SpecKind::GreaterEq,
            TokenKind::Greater => SpecKind::Greater,
            TokenKind::LesserLesser => SpecKind::LesserLesser,
            TokenKind::LesserEq => SpecKind::LesserEq,
            TokenKind::Lesser => SpecKind::Lesser,
            TokenKind::EqEq => SpecKind::EqEq,
            TokenKind::BangEq => SpecKind::BangEq,
            TokenKind::Bang => SpecKind::Bang,
            TokenKind::Eof => SpecKind::Eof,
            TokenKind::Error => SpecKind::Error,
        }
    }
}

impl SpecKind {
    /// How a token of this kind is written out: the canonical spelling of a
    /// symbol, and the text of a literal in the decoration of its class.
    pub open spec fn spelling(self) -> Seq<char> {
        match self {
            SpecKind::LPar => "("@,
            SpecKind::RPar => ")"@,
            SpecKind::LBracket => "["@,
            SpecKind::RBracket => "]"@,
            SpecKind::LBrace => "{"@,
            SpecKind::RBrace => "}"@,
            SpecKind::Eq => "="@,
            SpecKind::EqEq => "=="@,
            SpecKind::Colon => ":"@,
            SpecKind::UntypedAssignment => ":="@,
            SpecKind::Semi => ";"@,
            SpecKind::Dollar => "$"@,
            SpecKind::Comma => ","@,
            SpecKind::RightArrow => "->"@,
            SpecKind::LeftArrow => "<-"@,
            SpecKind::DotDot => ".."@,
            SpecKind::Dot => "."@,
            SpecKind::Tilde => "~"@,
            SpecKind::ColonColon => "::"@,
            SpecKind::Comment(text) => "\""@ + text + "\""@,
            SpecKind::Identifier(text) => text,
            SpecKind::Keyword(text) => "["@ + text + "]"@,
            SpecKind::Number(text) => "#"@ + text,
            SpecKind::Quote(text) => text,
            SpecKind::Plus => "+"@,
            SpecKind::Increment => "++"@,
            SpecKind::Minus => "-"@,
            SpecKind::Decrement => "--"@,
            SpecKind::Star => "*"@,
            SpecKind::Slash => "/"@,
            SpecKind::Percent => "%"@,
            SpecKind::Ampersand => "&"@,
            SpecKind::Bar => "|"@,
            SpecKind::Hat => "^"@,
            SpecKind::GreaterGreater => ">>"@,
            SpecKind::GreaterEq => ">="@,
            SpecKind::Greater => ">"@,
            SpecKind::LesserLesser => "<<"@,
            SpecKind::LesserEq => "<="@,
            SpecKind::Lesser => "<"@,
            SpecKind::BangEq => "!="@,
            SpecKind::Bang => "!"@,
            SpecKind::Eof => "not implemented"@,
            SpecKind::Error => "not implemented"@,
        }
    }
}

/// The number of line breaks in `text`.
pub open spec fn line_breaks(text: Seq<char>) -> nat
    decreases text.len(),
{
    if text.len() == 0 {
        0
    } else if text.last() == '\n' {
        line_breaks(text.drop_last()) + 1
    } else {
        line_breaks(text.drop_last())
    }
}

/// The number of characters after the last line break of `text`.
pub open spec fn line_tail(text: Seq<char>) -> nat
    decreases text.len(),
{
    if text.len() == 0 || text.last() == '\n' {
        0
    } else {
        line_tail(text.drop_last()) + 1
    }
}

/// Neither count exceeds the length of the text.
pub proof fn lemma_line_counts_bounded(text: Seq<char>)
    ensures
        line_breaks(text) <= text.len(),
        line_tail(text) <= text.len(),
    decreases text.len(),
{
    if text.len() > 0 {
        lemma_line_counts_bounded(text.drop_last());
    }
}

/// `n` as a machine integer, held at the largest one where it does not fit.
pub open spec fn saturate(n: nat) -> usize {
    if n <= usize::MAX {
        n as usize
    } else {
        usize::MAX
    }
}

/// One more than `n`, held at the largest value.
pub fn succ_saturating(n: usize) -> (r: usize)
    ensures
        r == saturate((n + 1) as nat),
{
    if n < usize::MAX {
        n + 1
    } else {
        usize::MAX
    }
}

/// A line and a column of the source text, both counted from one.
#[derive(Debug, Clone, Copy, PartialEq, Eq, Structural)]
pub struct Location {
    pub line: usize,
    pub col: usize,
}

impl Location {
    /// The location that follows `prefix`: one line per line break, and one
    /// column per character since the last of them.
    pub open spec fn after(prefix: Seq<char>) -> Location {
        Location {
            line: saturate(line_breaks(prefix) + 1),
            col: saturate(line_tail(prefix) + 1),
        }
    }

    pub fn new(line: usize, col: usize) -> (loc: Location)
        ensures
            loc == (Location { line, col }),
    {
        Location { line, col }
    }

    /// The location of no place in particular.
    pub fn empty() -> (loc: Location)
        ensures
            loc == (Location { line: 0, col: 0 }),
    {
        Location { line: 0, col: 0 }
    }
}

/// A classified, located unit of the input.
#[derive(Debug, Clone, Copy, PartialEq, Eq)]
pub struct Token<'tok> {
    pub kind: TokenKind<'tok>,
    pub loc: Location,
}

/// The mathematical model of a [`Token`].
pub struct SpecToken {
    pub kind: SpecKind,
    pub loc: Location,
}

impl<'tok> View for Token<'tok> {
    type V = SpecToken;

    open spec fn view(&self) -> SpecToken {
        SpecToken { kind: self.kind@, loc: self.loc }
    }
}

impl<'tok> Token<'tok> {
    pub fn new(kind: TokenKind<'tok>, loc: Location) -> (token: Token<'tok>)
        ensures
            token.kind == kind,
            token.loc == loc,
    {
        Token { kind, loc }
    }

    /// The number of bytes in the token's spelling.
    pub fn length(&self) -> (n: usize)
        ensures
            n == encode_utf8(self@.kind.spelling()).len(),
    {
        let lexeme = self.to_string();
        lexeme.as_str().as_bytes().len()
    }

    /// The token written out, as [`SpecKind::spelling`] describes.
    pub fn to_string(&self) -> (s: String)
        ensures
            s@ == self@.kind.spelling(),
    {
        match self.kind {
            TokenKind::LPar => String::from_str("("),
            TokenKind::RPar => String::from_str(")"),
            TokenKind::LBracket => String::from_str("["),
            TokenKind::RBracket => String::from_str("]"),
            TokenKind::LBrace => String::from_str("{"),
            TokenKind::RBrace => String::from_str("}"),
            TokenKind::Eq => String::from_str("="),
            TokenKind::EqEq => String::from_str("=="),
            TokenKind::Colon => String::from_str(":"),
            TokenKind::UntypedAssignment => String::from_str(":="),
            TokenKind::Semi => String::from_str(";"),
            TokenKind::Dollar => String::from_str("$"),
            TokenKind::Comma => String::from_str(","),
            TokenKind::RightArrow => String::from_str("->"),
            TokenKind::LeftArrow => String::from_str("<-"),
            TokenKind::DotDot => String::from_str(".."),
            TokenKind::Dot => String::from_str("."),
            TokenKind::Tilde => String::from_str("~"),
            TokenKind::ColonColon => String::from_str("::"),
            TokenKind::Comment(text) => String::from_str("\"").concat(text).concat("\""),
            TokenKind::Identifier(text) => String::from_str(text),
            TokenKind::Keyword(text) => String::from_str("[").concat(text).concat("]"),
            TokenKind::Number(text) => String::from_str("#").concat(text),
            TokenKind::Quote(text) => String::from_str(text),
            TokenKind::Plus => String::from_str("+"),
            TokenKind::Increment => String::from_str("++"),
            TokenKind::Minus => String::from_str("-"),
            TokenKind::Decrement => String::from_str("--"),
            TokenKind::Star => String::from_str("*"),
            TokenKind::Slash => String::from_str("/"),
            TokenKind::Percent => String::from_str("%"),
            TokenKind::Ampersand => String::from_str("&"),
            TokenKind::Bar => String::from_str("|"),
            TokenKind::Hat => String::from_str("^"),
            TokenKind::GreaterGreater => String::from_str(">>"),
            TokenKind::GreaterEq => String::from_str(">="),
            TokenKind::Greater => String::from_str(">"),
            TokenKind::LesserLesser => String::from_str("<<"),
            TokenKind::LesserEq => String::from_str("<="),
            TokenKind::Lesser => String::from_str("<"),
            TokenKind::BangEq => String::from_str("!="),
            TokenKind::Bang => String::from_str("!"),
            TokenKind::Eof => String::from_str("not implemented"),
            TokenKind::Error => String::from_str("not implemented"),
        }
    }
}

} // verus!
