//! The syntax tree.
use vstd::prelude::*;

verus! {

#[derive(Debug, PartialEq, Eq)]
pub enum Statement {
    Let { name: String, initial: Expression },
}

#[derive(Debug, PartialEq, Eq)]
pub enum Expression {
    /// A number, as its digits and decimal points: the numeral without its
    /// digit-group separators.
    Number(String),
    Identifier(String),
    Nil,
}

/// The mathematical model of an [`Expression`].
pub enum SpecExpression {
    Number(Seq<char>),
    Identifier(Seq<char>),
    Nil,
}

/// The mathematical model of a [`Statement`].
pub enum SpecStatement {
    Let { name: Seq<char>, initial: SpecExpression },
}

impl View for Expression {
    type V = SpecExpression;

    open spec fn view(&self) -> SpecExpression {
        match self {
            Expression::Number(digits) => SpecExpression::Number(digits@),
            Expression::Identifier(name) => SpecExpression::Identifier(name@),
            Expression::Nil => SpecExpression::Nil,
        }
    }
}

impl View for Statement {
    type V = SpecStatement;

    open spec fn view(&self) -> SpecStatement {
        match self {
            Statement::Let { name, initial } => SpecStatement::Let {
                name: name@,
                initial: initial@,
            },
        }
    }
}

} // verus!
