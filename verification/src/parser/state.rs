//! The parser: it pulls tokens from a lexer and builds statements of them.
use crate::error::OrionError;
use crate::lexer::cursor::Cursor;
use crate::lexer::encoding::same_text;
use crate::lexer::state::Lexer;
use crate::lexer::tokens::{SpecKind, SpecToken, Token, TokenKind};
use crate::parser::ast::{Expression, SpecExpression, SpecStatement, Statement};
use vstd::prelude::*;
use vstd::string::StringExecFns;

verus! {

pub type Program = Vec<Statement>;

/// The test for a character that is no digit-group separator.
pub open spec fn is_digit_char() -> spec_fn(char) -> bool {
    |c: char| c != '_'
}

/// A numeral without its digit-group separators.
pub open spec fn digits_of(numeral: Seq<char>) -> Seq<char> {
    numeral.filter(is_digit_char())
}

/// A numeral without its digit-group separators.
pub fn strip_separators(numeral: &str) -> (digits: String)
    ensures
        digits@ == digits_of(numeral@),
{
    let mut digits = String::new();
    let mut cursor = Cursor::new(numeral);
    let mut from = cursor.mark();
    while !cursor.is_at_end()
        invariant
            cursor.wf(),
            cursor.text() == numeral@,
            from.fits(numeral@),
            from.index() <= cursor.pos() <= numeral@.len(),
            forall|i: int| from.index() <= i < cursor.pos() ==> numeral@[i] != '_',
            digits@ + numeral@.subrange(from.index() as int, cursor.pos() as int) == digits_of(
                numeral@.take(cursor.pos() as int),
            ),
        decreases numeral@.len() - cursor.pos(),
    {
        let ghost pos = cursor.pos() as int;
        proof {
            reveal(Seq::filter);
            assert(numeral@.take(pos + 1).drop_last() =~= numeral@.take(pos));
        }
        if cursor.current() == '_' {
            let to = cursor.mark();
            digits.append(cursor.between(from, to));
            cursor.advance();
            from = cursor.mark();
        } else {
            cursor.advance();
        }
    }
    let to = cursor.mark();
    digits.append(cursor.between(from, to));
    proof {
        assert(numeral@.take(numeral@.len() as int) =~= numeral@);
    }
    digits
}

/// Whether a token opens a `let` statement.
pub open spec fn opens_let(kind: SpecKind) -> bool {
    kind == SpecKind::Keyword(seq!['l', 'e', 't'])
}

/// The expression that a token stands for; a token that is neither a number
/// nor an identifier, or no token at all, stands for `Nil`.
pub open spec fn expression_of(token: Option<SpecToken>) -> SpecExpression {
    match token {
        Some(SpecToken { kind: SpecKind::Number(numeral), .. }) => SpecExpression::Number(
            digits_of(numeral),
        ),
        Some(SpecToken { kind: SpecKind::Identifier(name), .. }) => SpecExpression::Identifier(
            name,
        ),
        _ => SpecExpression::Nil,
    }
}

/// The token at `index`, if the sequence is that long.
pub open spec fn token_at_index(tokens: Seq<SpecToken>, index: int) -> Option<SpecToken> {
    if 0 <= index < tokens.len() {
        Some(tokens[index])
    } else {
        None
    }
}

/// The kind of the token at `index`, if the sequence is that long.
pub open spec fn kind_at(tokens: Seq<SpecToken>, index: int) -> Option<SpecKind> {
    if 0 <= index < tokens.len() {
        Some(tokens[index].kind)
    } else {
        None
    }
}

/// The error that the statement at `from` is refused with, if it is
/// refused. A statement is the keyword `let`, any token for its name, `=`,
/// one token for its value, and `;`.
pub open spec fn refusal(tokens: Seq<SpecToken>, from: int) -> Option<OrionError> {
    if !opens_let(tokens[from].kind) {
        Some(OrionError::Unimplemented)
    } else if from + 1 >= tokens.len() {
        Some(OrionError::MissingIdentifier)
    } else if kind_at(tokens, from + 2) != Some(SpecKind::Eq) {
        Some(OrionError::ExpectedAssignment)
    } else if kind_at(tokens, from + 4) != Some(SpecKind::Semi) {
        Some(OrionError::UnclosedLet)
    } else {
        None
    }
}

/// How many tokens the parser has pulled when it refuses the statement at
/// `from` with `fault`.
pub open spec fn pulled_on(fault: OrionError) -> int {
    match fault {
        OrionError::MissingIdentifier => 1,
        OrionError::ExpectedAssignment => 3,
        OrionError::UnclosedLet => 5,
        _ => 1,
    }
}

/// The statement that the five tokens from `from` on spell.
pub open spec fn statement_at(tokens: Seq<SpecToken>, from: int) -> SpecStatement {
    SpecStatement::Let {
        name: tokens[from + 1].kind.spelling(),
        initial: expression_of(token_at_index(tokens, from + 3)),
    }
}

/// The statements that `tokens` spell from `from` on, or the first error.
pub open spec fn statements(tokens: Seq<SpecToken>, from: int) -> Result<
    Seq<SpecStatement>,
    OrionError,
>
    decreases tokens.len() - from,
{
    if from < 0 || from >= tokens.len() {
        Ok(Seq::empty())
    } else {
        match refusal(tokens, from) {
            Some(fault) => Err(fault),
            None => match statements(tokens, from + 5) {
                Ok(rest) => Ok(seq![statement_at(tokens, from)] + rest),
                Err(fault) => Err(fault),
            },
        }
    }
}

/// How many of `tokens` the parser pulls from `from` on: all of them where
/// they parse, and else those up to the place where it gives up.
pub open spec fn pulled(tokens: Seq<SpecToken>, from: int) -> int
    decreases tokens.len() - from,
{
    if from < 0 || from >= tokens.len() {
        tokens.len() as int
    } else {
        match refusal(tokens, from) {
            Some(fault) => if from + pulled_on(fault) <= tokens.len() {
                from + pulled_on(fault)
            } else {
                tokens.len() as int
            },
            None => pulled(tokens, from + 5),
        }
    }
}

/// The views of a vector of statements.
pub open spec fn program_view(program: Seq<Statement>) -> Seq<SpecStatement> {
    program.map_values(|statement: Statement| statement@)
}

/// The view of the outcome of a parse.
pub open spec fn outcome_view(outcome: Result<Program, OrionError>) -> Result<
    Seq<SpecStatement>,
    OrionError,
> {
    match outcome {
        Ok(program) => Ok(program_view(program@)),
        Err(fault) => Err(fault),
    }
}

pub struct Parser<'a> {
    lexer: Lexer<'a>,
}

impl<'a> Parser<'a> {
    /// The tokens that the parser has yet to pull from its lexer.
    pub closed spec fn pending(&self) -> Seq<SpecToken> {
        self.lexer.remaining()
    }

    /// The parser's lexer is well formed.
    pub closed spec fn wf(&self) -> bool {
        self.lexer.wf()
    }

    pub fn new(lexer: Lexer<'a>) -> (parser: Self)
        requires
            lexer.wf(),
        ensures
            parser.wf(),
            parser.pending() == lexer.remaining(),
    {
        Self { lexer }
    }

    /// Parses every statement that is left. The statements come back where
    /// all of the tokens parse, and else the error that the first statement
    /// out of shape is refused with.
    pub fn parse(&mut self) -> (outcome: Result<Program, OrionError>)
        requires
            old(self).wf(),
        ensures
            final(self).wf(),
            outcome_view(outcome) == statements(old(self).pending(), 0),
            final(self).pending() == old(self).pending().skip(pulled(old(self).pending(), 0)),
    {
        let ghost tokens = self.pending();
        let ghost mut from: int = 0;
        let mut stmts: Program = Vec::new();
        loop
            invariant
                self.wf(),
                tokens == old(self).pending(),
                0 <= from <= tokens.len(),
                self.pending() == tokens.skip(from),
                pulled(tokens, 0) == pulled(tokens, from),
                statements(tokens, 0) == match statements(tokens, from) {
                    Ok(rest) => Ok::<Seq<SpecStatement>, OrionError>(program_view(stmts@) + rest),
                    Err(fault) => Err(fault),
                },
            decreases tokens.len() - from,
        {
            let token = match self.lexer.next() {
                Some(token) => token,
                None => {
                    return Ok(stmts);
                },
            };
            if !is_let(&token) {
                return Err(OrionError::Unimplemented);
            }
            let identifier = match self.lexer.next() {
                Some(identifier) => identifier,
                None => {
                    return Err(OrionError::MissingIdentifier);
                },
            };
            match self.lexer.next() {
                Some(Token { kind: TokenKind::Eq, .. }) => {},
                _ => {
                    return Err(OrionError::ExpectedAssignment);
                },
            }
            let expression = self.parse_expression();
            match self.lexer.next() {
                Some(Token { kind: TokenKind::Semi, .. }) => {},
                _ => {
                    return Err(OrionError::UnclosedLet);
                },
            }
            let ghost before = stmts@;
            let stmt = Statement::Let { name: identifier.to_string(), initial: expression };
            stmts.push(stmt);
            proof {
                match statements(tokens, from + 5) {
                    Ok(rest) => {
                        assert(program_view(before) + (seq![statement_at(tokens, from)] + rest)
                            =~= program_view(stmts@) + rest);
                    },
                    Err(_) => {},
                }
                from = from + 5;
            }
        }
    }

    /// Pulls one token and reads it as an expression.
    fn parse_expression(&mut self) -> (expression: Expression)
        requires
            old(self).wf(),
        ensures
            final(self).wf(),
            expression@ == expression_of(token_at_index(old(self).pending(), 0)),
            final(self).pending() == if old(self).pending().len() > 0 {
                old(self).pending().drop_first()
            } else {
                old(self).pending()
            },
    {
        match self.lexer.next() {
            Some(Token { kind: TokenKind::Number(num), .. }) => Expression::Number(
                strip_separators(num),
            ),
            Some(Token { kind: TokenKind::Identifier(ident), .. }) => Expression::Identifier(
                String::from_str(ident),
            ),
            _ => Expression::Nil,
        }
    }
}

/// Whether `token` is the keyword `let`.
fn is_let(token: &Token) -> (r: bool)
    ensures
        r == opens_let(token@.kind),
{
    match token.kind {
        TokenKind::Keyword(word) => {
            proof {
                reveal_strlit("let");
                assert("let"@ =~= seq!['l', 'e', 't']);
            }
            same_text(word, "let")
        },
        _ => false,
    }
}

} // verus!
