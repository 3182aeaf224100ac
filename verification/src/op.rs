//! Operators of the expression tree and the tokens that spell them.

use vstd::prelude::*;
use crate::token::{SpecToken, Token};

verus! {

/// A unary operator (`+x`, `-x`, `!x`).
#[derive(Debug, PartialEq, Eq, Clone, Copy)]
pub enum UnOp {
    Plus,
    Minus,
    Negate,
}

/// A binary arithmetic operator (`x + y`).
#[derive(Debug, PartialEq, Eq, Clone, Copy)]
pub enum BinOp {
    Add,
    Sub,
    Mul,
    Div,
    Pow,
}

/// A logical operator (`x && y`).
#[derive(Debug, PartialEq, Eq, Clone, Copy)]
pub enum LogOp {
    Or,
    And,
}

/// A relational operator (`x >= y`).
#[derive(Debug, PartialEq, Eq, Clone, Copy)]
pub enum RelOp {
    Eq,
    Ne,
    Gt,
    Lt,
    Gte,
    Lte,
}

/// The unary operator that a token spells, if any.
pub open spec fn unary_operator(token: SpecToken) -> Option<UnOp> {
    match token {
        SpecToken::Hyphen => Some(UnOp::Minus),
        SpecToken::Plus => Some(UnOp::Plus),
        SpecToken::Bang => Some(UnOp::Negate),
        _ => None,
    }
}

/// The arithmetic operator that a token spells, if any.
pub open spec fn binary_operator(token: SpecToken) -> Option<BinOp> {
    match token {
        SpecToken::Plus => Some(BinOp::Add),
        SpecToken::Hyphen => Some(BinOp::Sub),
        SpecToken::Star => Some(BinOp::Mul),
        SpecToken::Divide => Some(BinOp::Div),
        SpecToken::Caret => Some(BinOp::Pow),
        _ => None,
    }
}

/// The logical operator that a token spells, if any.
pub open spec fn logical_operator(token: SpecToken) -> Option<LogOp> {
    match token {
        SpecToken::And => Some(LogOp::And),
        SpecToken::Or => Some(LogOp::Or),
        _ => None,
    }
}

/// The relational operator that a token spells, if any.
pub open spec fn relational_operator(token: SpecToken) -> Option<RelOp> {
    match token {
        SpecToken::RelEq => Some(RelOp::Eq),
        SpecToken::RelNe => Some(RelOp::Ne),
        SpecToken::RelGt => Some(RelOp::Gt),
        SpecToken::RelLt => Some(RelOp::Lt),
        SpecToken::RelGte => Some(RelOp::Gte),
        SpecToken::RelLte => Some(RelOp::Lte),
        _ => None,
    }
}

impl UnOp {
    /// The token that spells the operator.
    pub open spec fn token(self) -> SpecToken {
        match self {
            UnOp::Plus => SpecToken::Plus,
            UnOp::Minus => SpecToken::Hyphen,
            UnOp::Negate => SpecToken::Bang,
        }
    }

    /// The operator spelled by `value`, which must be `+`, `-` or `!`.
    pub fn from(value: Token) -> (op: UnOp)
        requires
            unary_operator(value@) is Some,
        ensures
            unary_operator(value@) == Some(op),
    {
        match value {
            Token::Hyphen => UnOp::Minus,
            Token::Plus => UnOp::Plus,
            _ => UnOp::Negate,
        }
    }
}

impl BinOp {
    /// The token that spells the operator.
    pub open spec fn token(self) -> SpecToken {
        match self {
            BinOp::Add => SpecToken::Plus,
            BinOp::Sub => SpecToken::Hyphen,
            BinOp::Mul => SpecToken::Star,
            BinOp::Div => SpecToken::Divide,
            BinOp::Pow => SpecToken::Caret,
        }
    }

    /// The operator spelled by `value`, which must be one of `+ - * / ^`.
    pub fn from(value: Token) -> (op: BinOp)
        requires
            binary_operator(value@) is Some,
        ensures
            binary_operator(value@) == Some(op),
    {
        match value {
            Token::Plus => BinOp::Add,
            Token::Hyphen => BinOp::Sub,
            Token::Star => BinOp::Mul,
            Token::Divide => BinOp::Div,
            _ => BinOp::Pow,
        }
    }
}

impl LogOp {
    /// The token that spells the operator.
    pub open spec fn token(self) -> SpecToken {
        match self {
            LogOp::And => SpecToken::And,
            LogOp::Or => SpecToken::Or,
        }
    }

    /// The operator spelled by `value`, which must be `&&` or `||`.
    pub fn from(value: Token) -> (op: LogOp)
        requires
            logical_operator(value@) is Some,
        ensures
            logical_operator(value@) == Some(op),
    {
        match value {
            Token::And => LogOp::And,
            _ => LogOp::Or,
        }
    }
}

impl RelOp {
    /// The token that spells the operator.
    pub open spec fn token(self) -> SpecToken {
        match self {
            RelOp::Eq => SpecToken::RelEq,
            RelOp::Ne => SpecToken::RelNe,
            RelOp::Gt => SpecToken::RelGt,
            RelOp::Lt => SpecToken::RelLt,
            RelOp::Gte => SpecToken::RelGte,
            RelOp::Lte => SpecToken::RelLte,
        }
    }

    /// The operator spelled by `value`, which must be one of
    /// `== != > < >= <=`.
    pub fn from(value: Token) -> (op: RelOp)
        requires
            relational_operator(value@) is Some,
        ensures
            relational_operator(value@) == Some(op),
    {
        match value {
            Token::RelEq => RelOp::Eq,
            Token::RelNe => RelOp::Ne,
            Token::RelGt => RelOp::Gt,
            Token::RelLt => RelOp::Lt,
            Token::RelGte => RelOp::Gte,
            _ => RelOp::Lte,
        }
    }
}

} // verus!
