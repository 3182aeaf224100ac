//! What holds of environments and of evaluation in every state.

use vstd::prelude::*;
use crate::arith::{fits, negative_power_error, overflow_error, quotient};
use crate::env::{lookup, SpecEnv};
use crate::error::SpecError;
use crate::expr::SpecExpr;
use crate::op::BinOp;
use crate::semantics::{eval_expr, eval_items, eval_program, eval_sequence, eval_stmt};
use crate::stmt::SpecStmt;
use crate::value::SpecValue;

verus! {

/// Nothing is bound in a fresh environment.
pub proof fn lemma_fresh_is_empty(ident: Seq<char>)
    ensures
        SpecEnv::fresh().get(ident) is None,
        !SpecEnv::fresh().has(ident),
{
}

/// A binding is found again, it leaves every other identifier as it was,
/// and it touches no enclosing scope.
pub proof fn lemma_put_then_get(env: SpecEnv, ident: Seq<char>, value: SpecValue, other: Seq<char>)
    ensures
        env.put(ident, value).get(ident) == Some(value),
        env.put(ident, value).has(ident),
        other != ident ==> env.put(ident, value).get(other) == env.get(other),
        env.put(ident, value).outer == env.outer,
{
}

/// Around a new scope lies the environment that it was opened in, and a
/// lookup in the new scope finds what that environment holds.
pub proof fn lemma_child_sees_parent(env: SpecEnv, ident: Seq<char>)
    ensures
        env.child().parent() == Some(env),
        !env.child().has(ident),
        env.child().get(ident) == env.get(ident),
{
    let scopes = env.outer.push(env.local);
    assert(scopes.drop_last() =~= env.outer);
    assert(scopes.last() == env.local);
    assert(lookup(scopes, ident) == env.get(ident));
}

/// Shadowing: a binding made in an inner scope hides an outer binding of the
/// same identifier while the scope lasts, and the environment around the
/// scope is the same afterwards.
pub proof fn lemma_shadowing(env: SpecEnv, ident: Seq<char>, value: SpecValue, other: Seq<char>)
    ensures
        env.child().put(ident, value).get(ident) == Some(value),
        other != ident ==> env.child().put(ident, value).get(other) == env.get(other),
        env.child().put(ident, value).parent() == Some(env),
{
    lemma_child_sees_parent(env, other);
    lemma_child_sees_parent(env, ident);
    let inner = env.child().put(ident, value);
    assert(inner.outer == env.child().outer);
}

/// No statement changes a scope around the current one, and a statement
/// that fails changes nothing at all.
pub proof fn lemma_stmt_keeps_outer(env: SpecEnv, stmt: SpecStmt)
    ensures
        eval_stmt(env, stmt).env.outer == env.outer,
        eval_stmt(env, stmt).result is Err ==> eval_stmt(env, stmt).env == env,
    decreases stmt,
{
    match stmt {
        SpecStmt::If { test, branch, else_branch } => {
            lemma_stmt_keeps_outer(env, *branch);
            if let Some(other) = else_branch {
                lemma_stmt_keeps_outer(env, *other);
            }
        },
        _ => {},
    }
}

/// A block leaves the environment exactly as it found it, whatever it binds
/// inside and whether it fails or not.
pub proof fn lemma_block_keeps_env(env: SpecEnv, stmts: Seq<SpecStmt>)
    ensures
        eval_stmt(env, SpecStmt::Block(stmts)).env == env,
{
}

/// No sequence of statements changes a scope around the current one.
pub proof fn lemma_sequence_keeps_outer(env: SpecEnv, stmts: Seq<SpecStmt>)
    ensures
        eval_sequence(env, stmts).env.outer == env.outer,
    decreases stmts.len(),
{
    if stmts.len() > 0 {
        lemma_sequence_keeps_outer(env, stmts.drop_last());
        lemma_stmt_keeps_outer(eval_sequence(env, stmts.drop_last()).env, stmts.last());
    }
}

/// A program gives one result for each of its statements, and changes no
/// scope around the one it runs in.
pub proof fn lemma_program_results(env: SpecEnv, stmts: Seq<SpecStmt>)
    ensures
        eval_program(env, stmts).results matches Ok(results) ==> results.len() == stmts.len(),
        eval_program(env, stmts).env.outer == env.outer,
    decreases stmts.len(),
{
    if stmts.len() > 0 {
        lemma_program_results(env, stmts.drop_last());
        lemma_stmt_keeps_outer(eval_program(env, stmts.drop_last()).env, stmts.last());
    }
}

/// Once a prefix of a list's elements has failed, the whole list fails with
/// the same error.
pub proof fn lemma_items_error_is_final(env: SpecEnv, items: Seq<SpecExpr>, upto: int)
    requires
        0 <= upto <= items.len(),
        eval_items(env, items.take(upto)) is Err,
    ensures
        eval_items(env, items) == eval_items(env, items.take(upto)),
    decreases items.len(),
{
    if upto < items.len() {
        assert(items.drop_last().take(upto) =~= items.take(upto));
        lemma_items_error_is_final(env, items.drop_last(), upto);
    } else {
        assert(items.take(upto) =~= items);
    }
}

/// Once a prefix of a sequence of statements has failed, the whole sequence
/// has the outcome of that prefix.
pub proof fn lemma_failure_is_final(env: SpecEnv, stmts: Seq<SpecStmt>, upto: int)
    requires
        0 <= upto <= stmts.len(),
        eval_sequence(env, stmts.take(upto)).result is Err,
    ensures
        eval_sequence(env, stmts) == eval_sequence(env, stmts.take(upto)),
    decreases stmts.len(),
{
    if upto < stmts.len() {
        assert(stmts.drop_last().take(upto) =~= stmts.take(upto));
        lemma_failure_is_final(env, stmts.drop_last(), upto);
    } else {
        assert(stmts.take(upto) =~= stmts);
    }
}

/// Once a prefix of a program has failed, the whole program has the outcome
/// of that prefix.
pub proof fn lemma_error_is_final(env: SpecEnv, stmts: Seq<SpecStmt>, upto: int)
    requires
        0 <= upto <= stmts.len(),
        eval_program(env, stmts.take(upto)).results is Err,
    ensures
        eval_program(env, stmts) == eval_program(env, stmts.take(upto)),
    decreases stmts.len(),
{
    if upto < stmts.len() {
        assert(stmts.drop_last().take(upto) =~= stmts.take(upto));
        lemma_error_is_final(env, stmts.drop_last(), upto);
    } else {
        assert(stmts.take(upto) =~= stmts);
    }
}

/// Whatever the expression and the environment, evaluation gives a value or
/// an error of the evaluator: an unresolved reference, a type error, a
/// division by zero or a logic error.
pub proof fn lemma_expr_errors_are_runtime(env: SpecEnv, expr: SpecExpr)
    ensures
        eval_expr(env, expr) matches Err(error) ==> error.is_runtime(),
    decreases expr,
{
    match expr {
        SpecExpr::Unary { operator, value } => {
            lemma_expr_errors_are_runtime(env, *value);
        },
        SpecExpr::Binary { operator, lhs, rhs } => {
            lemma_expr_errors_are_runtime(env, *lhs);
            lemma_expr_errors_are_runtime(env, *rhs);
        },
        SpecExpr::Logical { operator, lhs, rhs } => {
            lemma_expr_errors_are_runtime(env, *lhs);
            lemma_expr_errors_are_runtime(env, *rhs);
        },
        SpecExpr::Relational { operator, lhs, rhs } => {
            lemma_expr_errors_are_runtime(env, *lhs);
            lemma_expr_errors_are_runtime(env, *rhs);
        },
        SpecExpr::List(items) => {
            lemma_items_errors_are_runtime(env, items);
        },
        _ => {},
    }
}

/// The same for the elements of a list literal.
pub proof fn lemma_items_errors_are_runtime(env: SpecEnv, items: Seq<SpecExpr>)
    ensures
        eval_items(env, items) matches Err(error) ==> error.is_runtime(),
        eval_items(env, items) matches Ok(values) ==> values.len() == items.len(),
    decreases items,
{
    if items.len() > 0 {
        lemma_items_errors_are_runtime(env, items.drop_last());
        lemma_expr_errors_are_runtime(env, items.last());
    }
}

/// The same for a statement.
pub proof fn lemma_stmt_errors_are_runtime(env: SpecEnv, stmt: SpecStmt)
    ensures
        eval_stmt(env, stmt).result matches Err(error) ==> error.is_runtime(),
    decreases stmt,
{
    match stmt {
        SpecStmt::Expr(expr) => {
            lemma_expr_errors_are_runtime(env, expr);
        },
        SpecStmt::If { test, branch, else_branch } => {
            lemma_expr_errors_are_runtime(env, test);
            lemma_stmt_errors_are_runtime(env, *branch);
            if let Some(other) = else_branch {
                lemma_stmt_errors_are_runtime(env, *other);
            }
        },
        SpecStmt::Let { ident, expr } => {
            lemma_expr_errors_are_runtime(env, expr);
        },
        SpecStmt::Block(stmts) => {
            lemma_sequence_errors_are_runtime(env.child(), stmts);
        },
    }
}

/// The same for a sequence of statements.
pub proof fn lemma_sequence_errors_are_runtime(env: SpecEnv, stmts: Seq<SpecStmt>)
    ensures
        eval_sequence(env, stmts).result matches Err(error) ==> error.is_runtime(),
    decreases stmts,
{
    if stmts.len() > 0 {
        lemma_sequence_errors_are_runtime(env, stmts.drop_last());
        lemma_stmt_errors_are_runtime(eval_sequence(env, stmts.drop_last()).env, stmts.last());
    }
}

/// The same for a program.
pub proof fn lemma_program_errors_are_runtime(env: SpecEnv, stmts: Seq<SpecStmt>)
    ensures
        eval_program(env, stmts).results matches Err(error) ==> error.is_runtime(),
    decreases stmts.len(),
{
    if stmts.len() > 0 {
        lemma_program_errors_are_runtime(env, stmts.drop_last());
        lemma_stmt_errors_are_runtime(eval_program(env, stmts.drop_last()).env, stmts.last());
    }
}

/// An identifier that no scope binds is an unresolved reference.
pub proof fn lemma_unknown_identifier(env: SpecEnv, ident: Seq<char>)
    requires
        env.get(ident) is None,
    ensures
        eval_expr(env, SpecExpr::Ident(ident)) == Err::<SpecValue, SpecError>(
            SpecError::UnknownIdentifier { ident },
        ),
{
}

/// A division of an integer by zero is the division error, whatever the
/// dividend.
pub proof fn lemma_division_by_zero(env: SpecEnv, lhs: SpecExpr, rhs: SpecExpr)
    requires
        eval_expr(env, lhs) matches Ok(SpecValue::Integer(_)),
        eval_expr(env, rhs) == Ok::<SpecValue, SpecError>(SpecValue::Integer(0)),
    ensures
        eval_expr(
            env,
            SpecExpr::Binary { operator: BinOp::Div, lhs: Box::new(lhs), rhs: Box::new(rhs) },
        ) == Err::<SpecValue, SpecError>(SpecError::DivideByZeroError),
{
}

/// A power of an integer with an exponent below zero is a logic error,
/// whatever the base.
pub proof fn lemma_negative_exponent(env: SpecEnv, lhs: SpecExpr, rhs: SpecExpr)
    requires
        eval_expr(env, lhs) matches Ok(SpecValue::Integer(_)),
        eval_expr(env, rhs) matches Ok(SpecValue::Integer(exponent)) && exponent < 0,
    ensures
        eval_expr(
            env,
            SpecExpr::Binary { operator: BinOp::Pow, lhs: Box::new(lhs), rhs: Box::new(rhs) },
        ) == Err::<SpecValue, SpecError>(negative_power_error()),
{
}

/// An `if` whose test is false and that has no `else` has no value and
/// changes nothing.
pub proof fn lemma_if_without_else(env: SpecEnv, test: SpecExpr, branch: SpecStmt)
    requires
        eval_expr(env, test) matches Ok(value) && value.to_bool() == Ok::<bool, SpecError>(false),
    ensures
        eval_stmt(env, SpecStmt::If { test, branch: Box::new(branch), else_branch: None }).result
            == Ok::<Option<SpecValue>, SpecError>(None),
        eval_stmt(env, SpecStmt::If { test, branch: Box::new(branch), else_branch: None }).env
            == env,
{
}

/// Whether an expression is built from integer literals with `+`, `-`, `*`
/// and `/` alone.
pub open spec fn is_arithmetic(expr: SpecExpr) -> bool
    decreases expr,
{
    match expr {
        SpecExpr::Integer(_) => true,
        SpecExpr::Binary { operator, lhs, rhs } => operator != BinOp::Pow && is_arithmetic(*lhs)
            && is_arithmetic(*rhs),
        _ => false,
    }
}

/// The value of an arithmetic expression over the integers, where a
/// quotient is rounded toward zero.
pub open spec fn exact_value(expr: SpecExpr) -> int
    decreases expr,
{
    match expr {
        SpecExpr::Integer(value) => value as int,
        SpecExpr::Binary { operator, lhs, rhs } => match operator {
            BinOp::Add => exact_value(*lhs) + exact_value(*rhs),
            BinOp::Sub => exact_value(*lhs) - exact_value(*rhs),
            BinOp::Mul => exact_value(*lhs) * exact_value(*rhs),
            BinOp::Div => quotient(exact_value(*lhs), exact_value(*rhs)),
            BinOp::Pow => 0,
        },
        _ => 0,
    }
}

/// Whether an arithmetic expression can be computed in 32 bits: no divisor
/// in it is zero, and the value of every part of it is a 32-bit signed
/// integer.
pub open spec fn is_computable(expr: SpecExpr) -> bool
    decreases expr,
{
    match expr {
        SpecExpr::Binary { operator, lhs, rhs } => {
            &&& is_computable(*lhs)
            &&& is_computable(*rhs)
            &&& operator == BinOp::Div ==> exact_value(*rhs) != 0
            &&& fits(exact_value(expr))
        },
        _ => true,
    }
}

/// Evaluation is arithmetic: an arithmetic expression that can be computed
/// in 32 bits evaluates to its value over the integers, in any
/// environment. One that cannot is an error: of division where the first
/// part that cannot be computed divides by zero, of overflow otherwise.
pub proof fn lemma_arithmetic_value(env: SpecEnv, expr: SpecExpr)
    requires
        is_arithmetic(expr),
    ensures
        is_computable(expr) ==> eval_expr(env, expr) == Ok::<SpecValue, SpecError>(
            SpecValue::Integer(exact_value(expr) as i32),
        ),
        !is_computable(expr) ==> eval_expr(env, expr) == Err::<SpecValue, SpecError>(
            SpecError::DivideByZeroError,
        ) || eval_expr(env, expr) == Err::<SpecValue, SpecError>(overflow_error()),
    decreases expr,
{
    match expr {
        SpecExpr::Binary { operator, lhs, rhs } => {
            lemma_arithmetic_value(env, *lhs);
            lemma_arithmetic_value(env, *rhs);
        },
        _ => {},
    }
}

} // verus!
