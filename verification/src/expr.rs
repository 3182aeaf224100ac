//! Expression trees.

use vstd::prelude::*;
use std::rc::Rc;
use crate::op::{BinOp, LogOp, RelOp, UnOp};

verus! {

/// An expression: a tree whose leaves are literals and identifiers.
#[derive(Debug, PartialEq)]
#[allow(inconsistent_fields)]
pub enum Expr {
    /// Single integer value (e.g. `42`)
    Integer(i32),
    /// Boolean value (`true` or `false`)
    Bool(bool),
    /// A variable (e.g. `x`)
    Ident(String),
    /// Unary operation (e.g. `+1`, `-2`)
    Unary { operator: UnOp, value: Rc<Expr> },
    /// Binary operation (e.g. `3 * 4`)
    Binary { operator: BinOp, lhs: Rc<Expr>, rhs: Rc<Expr> },
    /// Logical operation (e.g. `a && b`)
    Logical { operator: LogOp, lhs: Rc<Expr>, rhs: Rc<Expr> },
    /// Comparison (e.g. `a <= b`)
    Relational { operator: RelOp, lhs: Rc<Expr>, rhs: Rc<Expr> },
    /// List literal (e.g. `[1, 2, 3]`)
    List(Vec<Expr>),
}

/// The mathematical model of an [`Expr`].
#[allow(inconsistent_fields)]
pub enum SpecExpr {
    Integer(i32),
    Bool(bool),
    Ident(Seq<char>),
    Unary { operator: UnOp, value: Box<SpecExpr> },
    Binary { operator: BinOp, lhs: Box<SpecExpr>, rhs: Box<SpecExpr> },
    Logical { operator: LogOp, lhs: Box<SpecExpr>, rhs: Box<SpecExpr> },
    Relational { operator: RelOp, lhs: Box<SpecExpr>, rhs: Box<SpecExpr> },
    List(Seq<SpecExpr>),
}

impl Expr {
    /// The model of the expression.
    pub open spec fn view(&self) -> SpecExpr
        decreases self,
    {
        match self {
            Expr::Integer(value) => SpecExpr::Integer(*value),
            Expr::Bool(value) => SpecExpr::Bool(*value),
            Expr::Ident(name) => SpecExpr::Ident(name@),
            Expr::Unary { operator, value } => SpecExpr::Unary {
                operator: *operator,
                value: Box::new(value@),
            },
            Expr::Binary { operator, lhs, rhs } => SpecExpr::Binary {
                operator: *operator,
                lhs: Box::new(lhs@),
                rhs: Box::new(rhs@),
            },
            Expr::Logical { operator, lhs, rhs } => SpecExpr::Logical {
                operator: *operator,
                lhs: Box::new(lhs@),
                rhs: Box::new(rhs@),
            },
            Expr::Relational { operator, lhs, rhs } => SpecExpr::Relational {
                operator: *operator,
                lhs: Box::new(lhs@),
                rhs: Box::new(rhs@),
            },
            Expr::List(items) => SpecExpr::List(view_exprs(items@)),
        }
    }
}

/// The models of a sequence of expressions, in order.
pub open spec fn view_exprs(exprs: Seq<Expr>) -> Seq<SpecExpr>
    decreases exprs,
{
    if exprs.len() == 0 {
        Seq::empty()
    } else {
        view_exprs(exprs.drop_last()).push(exprs.last()@)
    }
}

/// `view_exprs` maps each expression to its model, position by position.
pub proof fn lemma_view_exprs(exprs: Seq<Expr>)
    ensures
        view_exprs(exprs).len() == exprs.len(),
        forall|i: int| 0 <= i < exprs.len() ==> (#[trigger] view_exprs(exprs)[i]) == exprs[i]@,
    decreases exprs.len(),
{
    if exprs.len() > 0 {
        lemma_view_exprs(exprs.drop_last());
    }
}

} // verus!
