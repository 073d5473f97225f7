//! The shapes of the syntax tree that a parser builds from the tokens.
use vstd::prelude::*;
use internment::Intern;
use crate::span::{Span, Spanned};

verus! {

/// The operators of an arithmetic expression.
#[derive(Debug, PartialEq, Eq, Clone, Copy)]
pub enum Arithmetic {
    Add,
    Sub,
    Mul,
    Div,
    Mod,
    Pow,
}

/// A top-level declaration.
pub enum Declaraction<'decl> {
    Function {
        name: Intern<String>,
        args: &'decl [Intern<String>],
        body: &'decl Expression<'decl>,
        span: Span,
    },
}

impl Spanned for Declaraction<'_> {
    open spec fn span_of(&self) -> Span {
        match self {
            Declaraction::Function { span, .. } => *span,
        }
    }

    fn span(&self) -> (r: Span) {
        match self {
            Declaraction::Function { span, .. } => *span,
        }
    }
}

/// An expression.
#[derive(Debug, PartialEq, Clone, Copy)]
pub enum Expression<'exp> {
    Block { body: &'exp [Expression<'exp>], span: Span },
    Arithmetic {
        lhs: &'exp Expression<'exp>,
        rhs: &'exp Expression<'exp>,
        span: Span,
        kind: Arithmetic,
    },
    MatchExpression {
        cond: &'exp Expression<'exp>,
        arms: &'exp [(Literal, Expression<'exp>)],
        span: Span,
    },
    Call { name: Intern<String>, args: &'exp [Expression<'exp>], span: Span },
}

impl Spanned for Expression<'_> {
    open spec fn span_of(&self) -> Span {
        match self {
            Expression::Block { span, .. } => *span,
            Expression::Arithmetic { span, .. } => *span,
            Expression::MatchExpression { span, .. } => *span,
            Expression::Call { span, .. } => *span,
        }
    }

    fn span(&self) -> (r: Span) {
        match self {
            Expression::Block { span, .. } => *span,
            Expression::Arithmetic { span, .. } => *span,
            Expression::MatchExpression { span, .. } => *span,
            Expression::Call { span, .. } => *span,
        }
    }
}

/// A literal value in the syntax tree.
#[derive(Debug, PartialEq, Clone, Copy)]
pub enum Literal {
    /// A number, as the numeral that was written (see `TokenLiteral::Number`).
    Number { value: Intern<String>, span: Span },
    String { value: Intern<String>, span: Span },
    Boolean { value: bool, span: Span },
}

impl Spanned for Literal {
    open spec fn span_of(&self) -> Span {
        match self {
            Literal::Number { span, .. } => *span,
            Literal::String { span, .. } => *span,
            Literal::Boolean { span, .. } => *span,
        }
    }

    fn span(&self) -> (r: Span) {
        match self {
            Literal::Number { span, .. } => *span,
            Literal::String { span, .. } => *span,
            Literal::Boolean { span, .. } => *span,
        }
    }
}

} // verus!
