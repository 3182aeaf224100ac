//! What programs mean: the value of an expression and the effect of a
//! statement, as mathematical functions of the environment.

use vstd::prelude::*;
use crate::arith::{arith, negation};
use crate::env::SpecEnv;
use crate::error::SpecError;
use crate::expr::SpecExpr;
use crate::op::{LogOp, RelOp, UnOp};
use crate::stmt::SpecStmt;
use crate::value::SpecValue;

verus! {

/// The error for unary minus on a value that is no integer.
pub open spec fn expected_integer_error() -> SpecError {
    SpecError::TypeError { message: "expected integer"@ }
}

/// The error for an ordering comparison of two booleans.
pub open spec fn invalid_operation_error() -> SpecError {
    SpecError::TypeError { message: "invalid operation"@ }
}

/// The error for a comparison of two values that are not both integers or
/// both booleans.
pub open spec fn invalid_comparison_error() -> SpecError {
    SpecError::TypeError { message: "invalid comparison"@ }
}

/// The error for a block without statements.
pub open spec fn empty_block_error() -> SpecError {
    SpecError::LogicError { message: "block contained no return value"@ }
}

/// The integer operand that an evaluated operand stands for.
pub open spec fn integer_of(operand: Result<SpecValue, SpecError>) -> Result<i32, SpecError> {
    match operand {
        Ok(value) => value.to_integer(),
        Err(error) => Err(error),
    }
}

/// The truth value that an evaluated operand stands for.
pub open spec fn truth_of(operand: Result<SpecValue, SpecError>) -> Result<bool, SpecError> {
    match operand {
        Ok(value) => value.to_bool(),
        Err(error) => Err(error),
    }
}

/// What a unary operator gives on a value: minus negates an integer, plus is
/// the identity, and `!` negates the truth value that the operand stands for.
pub open spec fn unary(operator: UnOp, operand: SpecValue) -> Result<SpecValue, SpecError> {
    match operator {
        UnOp::Minus => match operand {
            SpecValue::Integer(n) => match negation(n) {
                Ok(negated) => Ok(SpecValue::Integer(negated)),
                Err(error) => Err(error),
            },
            _ => Err(expected_integer_error()),
        },
        UnOp::Plus => Ok(operand),
        UnOp::Negate => match operand.to_bool() {
            Ok(truth) => Ok(SpecValue::Bool(!truth)),
            Err(error) => Err(error),
        },
    }
}

/// What a logical operator gives on two truth values.
pub open spec fn logical(operator: LogOp, lhs: bool, rhs: bool) -> bool {
    match operator {
        LogOp::And => lhs && rhs,
        LogOp::Or => lhs || rhs,
    }
}

/// What a relational operator gives on two integers.
pub open spec fn compare_integers(operator: RelOp, lhs: i32, rhs: i32) -> bool {
    match operator {
        RelOp::Eq => lhs == rhs,
        RelOp::Ne => lhs != rhs,
        RelOp::Gt => lhs > rhs,
        RelOp::Lt => lhs < rhs,
        RelOp::Gte => lhs >= rhs,
        RelOp::Lte => lhs <= rhs,
    }
}

/// What a relational operator gives on two values. Two integers compare in
/// all six ways, two booleans only for equality, and no other pair compares.
pub open spec fn compare(operator: RelOp, lhs: SpecValue, rhs: SpecValue) -> Result<
    bool,
    SpecError,
> {
    match (lhs, rhs) {
        (SpecValue::Integer(a), SpecValue::Integer(b)) => Ok(compare_integers(operator, a, b)),
        (SpecValue::Bool(a), SpecValue::Bool(b)) => match operator {
            RelOp::Eq => Ok(a == b),
            RelOp::Ne => Ok(a != b),
            _ => Err(invalid_operation_error()),
        },
        _ => Err(invalid_comparison_error()),
    }
}

/// The value of an expression in an environment. Operands are evaluated from
/// left to right, both operands of `&&` and `||` always, and the first error
/// is the result.
pub open spec fn eval_expr(env: SpecEnv, expr: SpecExpr) -> Result<SpecValue, SpecError>
    decreases expr,
{
    match expr {
        SpecExpr::Integer(n) => Ok(SpecValue::Integer(n)),
        SpecExpr::Bool(b) => Ok(SpecValue::Bool(b)),
        SpecExpr::Ident(name) => match env.get(name) {
            Some(value) => Ok(value),
            None => Err(SpecError::UnknownIdentifier { ident: name }),
        },
        SpecExpr::Unary { operator, value } => match eval_expr(env, *value) {
            Ok(operand) => unary(operator, operand),
            Err(error) => Err(error),
        },
        SpecExpr::Binary { operator, lhs, rhs } => match integer_of(eval_expr(env, *lhs)) {
            Err(error) => Err(error),
            Ok(a) => match integer_of(eval_expr(env, *rhs)) {
                Err(error) => Err(error),
                Ok(b) => match arith(operator, a, b) {
                    Ok(n) => Ok(SpecValue::Integer(n)),
                    Err(error) => Err(error),
                },
            },
        },
        SpecExpr::Logical { operator, lhs, rhs } => match truth_of(eval_expr(env, *lhs)) {
            Err(error) => Err(error),
            Ok(a) => match truth_of(eval_expr(env, *rhs)) {
                Err(error) => Err(error),
                Ok(b) => Ok(SpecValue::Bool(logical(operator, a, b))),
            },
        },
        SpecExpr::Relational { operator, lhs, rhs } => match eval_expr(env, *lhs) {
            Err(error) => Err(error),
            Ok(a) => match eval_expr(env, *rhs) {
                Err(error) => Err(error),
                Ok(b) => match compare(operator, a, b) {
                    Ok(truth) => Ok(SpecValue::Bool(truth)),
                    Err(error) => Err(error),
                },
            },
        },
        SpecExpr::List(items) => match eval_items(env, items) {
            Ok(values) => Ok(SpecValue::List(values)),
            Err(error) => Err(error),
        },
    }
}

/// The values of the elements of a list literal, from left to right, or the
/// error of the first element that has none.
pub open spec fn eval_items(env: SpecEnv, items: Seq<SpecExpr>) -> Result<
    Seq<SpecValue>,
    SpecError,
>
    decreases items,
{
    if items.len() == 0 {
        Ok(Seq::empty())
    } else {
        match eval_items(env, items.drop_last()) {
            Err(error) => Err(error),
            Ok(values) => match eval_expr(env, items.last()) {
                Err(error) => Err(error),
                Ok(value) => Ok(values.push(value)),
            },
        }
    }
}

/// What evaluating a statement leaves behind: the environment afterwards,
/// and the statement's value, if it has one, or its error.
pub struct Outcome {
    pub env: SpecEnv,
    pub result: Result<Option<SpecValue>, SpecError>,
}

/// The effect of a statement in an environment.
///
/// An expression has its value. A `let` binds its identifier in the current
/// scope and has no value. An `if` runs the branch that its test selects in
/// the environment of the `if` itself; without a branch to run it has no
/// value. A block runs its statements in a new scope, which is dropped at its
/// end: it has the value of its last statement and leaves the environment as
/// it found it.
pub open spec fn eval_stmt(env: SpecEnv, stmt: SpecStmt) -> Outcome
    decreases stmt,
{
    match stmt {
        SpecStmt::Expr(expr) => Outcome {
            env,
            result: match eval_expr(env, expr) {
                Ok(value) => Ok(Some(value)),
                Err(error) => Err(error),
            },
        },
        SpecStmt::If { test, branch, else_branch } => match truth_of(eval_expr(env, test)) {
            Err(error) => Outcome { env, result: Err(error) },
            Ok(truth) => if truth {
                eval_stmt(env, *branch)
            } else {
                match else_branch {
                    Some(other) => eval_stmt(env, *other),
                    None => Outcome { env, result: Ok(None) },
                }
            },
        },
        SpecStmt::Let { ident, expr } => match eval_expr(env, expr) {
            Ok(value) => Outcome { env: env.put(ident, value), result: Ok(None) },
            Err(error) => Outcome { env, result: Err(error) },
        },
        SpecStmt::Block(stmts) => Outcome {
            env,
            result: if stmts.len() == 0 {
                Err(empty_block_error())
            } else {
                eval_sequence(env.child(), stmts).result
            },
        },
    }
}

/// The effect of running statements one after the other, each in the
/// environment that the one before it left: the outcome of the last
/// statement, or of the first one that fails. No statement has the outcome
/// of an empty sequence, which has no value.
pub open spec fn eval_sequence(env: SpecEnv, stmts: Seq<SpecStmt>) -> Outcome
    decreases stmts,
{
    if stmts.len() == 0 {
        Outcome { env, result: Ok(None) }
    } else {
        let before = eval_sequence(env, stmts.drop_last());
        if before.result is Err {
            before
        } else {
            eval_stmt(before.env, stmts.last())
        }
    }
}

/// What evaluating a program leaves behind: the environment afterwards, and
/// the results of its statements, one for each, or the first error.
pub struct ProgramOutcome {
    pub env: SpecEnv,
    pub results: Result<Seq<Option<SpecValue>>, SpecError>,
}

/// The effect of a program: its statements run in order in one environment,
/// up to the first that fails. The bindings made before a failure stay.
pub open spec fn eval_program(env: SpecEnv, stmts: Seq<SpecStmt>) -> ProgramOutcome
    decreases stmts.len(),
{
    if stmts.len() == 0 {
        ProgramOutcome { env, results: Ok(Seq::empty()) }
    } else {
        let before = eval_program(env, stmts.drop_last());
        match before.results {
            Err(error) => before,
            Ok(results) => {
                let last = eval_stmt(before.env, stmts.last());
                ProgramOutcome {
                    env: last.env,
                    results: match last.result {
                        Ok(result) => Ok(results.push(result)),
                        Err(error) => Err(error),
                    },
                }
            },
        }
    }
}

} // verus!
