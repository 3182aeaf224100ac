//! Statements.

use vstd::prelude::*;
use std::rc::Rc;
use crate::expr::{Expr, SpecExpr};

verus! {

/// A statement. A program is a sequence of statements, evaluated in order.
#[derive(Debug, PartialEq)]
pub enum Stmt {
    /// An if statement (`if <expr> <stmt> [else <stmt>]`)
    If { test: Expr, branch: Rc<Stmt>, else_branch: Option<Rc<Stmt>> },
    /// A let statement (e.g. `let x = 10`)
    Let { ident: String, expr: Expr },
    /// A group of statements in a scope of their own (e.g. `{ let x = 1; x + 2 }`)
    Block(Vec<Stmt>),
    /// A single expression
    Expr(Expr),
}

/// The mathematical model of a [`Stmt`].
pub enum SpecStmt {
    If { test: SpecExpr, branch: Box<SpecStmt>, else_branch: Option<Box<SpecStmt>> },
    Let { ident: Seq<char>, expr: SpecExpr },
    Block(Seq<SpecStmt>),
    Expr(SpecExpr),
}

impl Stmt {
    /// The model of the statement.
    pub open spec fn view(&self) -> SpecStmt
        decreases self,
    {
        match self {
            Stmt::If { test, branch, else_branch } => SpecStmt::If {
                test: test@,
                branch: Box::new(branch@),
                else_branch: match else_branch {
                    Some(other) => Some(Box::new(other@)),
                    None => None,
                },
            },
            Stmt::Let { ident, expr } => SpecStmt::Let { ident: ident@, expr: expr@ },
            Stmt::Block(stmts) => SpecStmt::Block(view_stmts(stmts@)),
            Stmt::Expr(expr) => SpecStmt::Expr(expr@),
        }
    }
}

/// The models of a sequence of statements, in order.
pub open spec fn view_stmts(stmts: Seq<Stmt>) -> Seq<SpecStmt>
    decreases stmts,
{
    if stmts.len() == 0 {
        Seq::empty()
    } else {
        view_stmts(stmts.drop_last()).push(stmts.last()@)
    }
}

/// `view_stmts` maps each statement to its model, position by position.
pub proof fn lemma_view_stmts(stmts: Seq<Stmt>)
    ensures
        view_stmts(stmts).len() == stmts.len(),
        forall|i: int| 0 <= i < stmts.len() ==> (#[trigger] view_stmts(stmts)[i]) == stmts[i]@,
    decreases stmts.len(),
{
    if stmts.len() > 0 {
        lemma_view_stmts(stmts.drop_last());
    }
}

} // verus!
