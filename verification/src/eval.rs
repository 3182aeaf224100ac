//! The tree-walking evaluator.

use vstd::prelude::*;
use crate::arith::{compute, negate, view_plain};
use crate::env::{Environment, SpecEnv};
use crate::error::{IntyError, SpecError};
use crate::expr::{lemma_view_exprs, view_exprs, Expr};
use crate::op::{LogOp, RelOp, UnOp};
use crate::semantics::{
    compare, eval_expr, eval_items, eval_program, eval_sequence, eval_stmt, unary,
};
use crate::semantics_laws::{
    lemma_child_sees_parent, lemma_error_is_final, lemma_failure_is_final,
    lemma_items_error_is_final, lemma_program_errors_are_runtime, lemma_program_results,
};
use crate::stmt::{lemma_view_stmts, view_stmts, Stmt};
use crate::value::{view_opt_value, view_values, SpecValue, Value};

verus! {

/// The model of the result of evaluating an expression.
pub open spec fn view_value_result(outcome: Result<Value, IntyError>) -> Result<
    SpecValue,
    SpecError,
> {
    match outcome {
        Ok(value) => Ok(value@),
        Err(error) => Err(error@),
    }
}

/// The model of the result of evaluating a statement.
pub open spec fn view_stmt_result(outcome: Result<Option<Value>, IntyError>) -> Result<
    Option<SpecValue>,
    SpecError,
> {
    match outcome {
        Ok(value) => Ok(view_opt_value(value)),
        Err(error) => Err(error@),
    }
}

/// The models of the results of the statements of a program, in order.
pub open spec fn view_results(results: Seq<Option<Value>>) -> Seq<Option<SpecValue>> {
    Seq::new(results.len(), |i: int| view_opt_value(results[i]))
}

/// The model of the result of evaluating a program.
pub open spec fn view_program_result(outcome: Result<Vec<Option<Value>>, IntyError>) -> Result<
    Seq<Option<SpecValue>>,
    SpecError,
> {
    match outcome {
        Ok(results) => Ok(view_results(results@)),
        Err(error) => Err(error@),
    }
}

/// Applies a unary operator to a value.
pub fn apply_unary(operator: UnOp, operand: Value) -> (outcome: Result<Value, IntyError>)
    ensures
        view_value_result(outcome) == unary(operator, operand@),
{
    match operator {
        UnOp::Minus => match operand {
            Value::Integer(n) => match negate(n) {
                Ok(negated) => Ok(Value::Integer(negated)),
                Err(error) => Err(error),
            },
            _ => Err(IntyError::TypeError { message: "expected integer".to_owned() }),
        },
        UnOp::Plus => Ok(operand),
        UnOp::Negate => match operand.try_parse_bool() {
            Ok(truth) => Ok(Value::Bool(!truth)),
            Err(error) => Err(error),
        },
    }
}

/// Applies a relational operator to two values.
pub fn apply_relational(operator: RelOp, lhs: &Value, rhs: &Value) -> (outcome: Result<
    bool,
    IntyError,
>)
    ensures
        view_plain(outcome) == compare(operator, lhs@, rhs@),
{
    match (lhs, rhs) {
        (Value::Integer(a), Value::Integer(b)) => Ok(
            match operator {
                RelOp::Eq => *a == *b,
                RelOp::Ne => *a != *b,
                RelOp::Gt => *a > *b,
                RelOp::Lt => *a < *b,
                RelOp::Gte => *a >= *b,
                RelOp::Lte => *a <= *b,
            },
        ),
        (Value::Bool(a), Value::Bool(b)) => match operator {
            RelOp::Eq => Ok(*a == *b),
            RelOp::Ne => Ok(*a != *b),
            _ => Err(IntyError::TypeError { message: "invalid operation".to_owned() }),
        },
        _ => Err(IntyError::TypeError { message: "invalid comparison".to_owned() }),
    }
}

/// Evaluates programs against an environment that it keeps from one program
/// to the next.
pub struct Evaluator {
    env: Environment,
}

impl Evaluator {
    /// The model of the evaluator: that of its environment.
    pub closed spec fn view(&self) -> SpecEnv {
        self.env@
    }

    /// An evaluator with an environment of one empty scope.
    pub fn new() -> (evaluator: Self)
        ensures
            evaluator@ == SpecEnv::fresh(),
    {
        Evaluator { env: Environment::new() }
    }

    /// An evaluator that starts from `env`.
    pub fn new_with_env(env: Environment) -> (evaluator: Self)
        ensures
            evaluator@ == env@,
    {
        Evaluator { env }
    }

    /// The environment as the programs evaluated so far have left it.
    pub fn env(&self) -> (env: &Environment)
        ensures
            env@ == self@,
    {
        &self.env
    }

    /// Evaluates the statements of a program in order and returns one result
    /// for each, or the first error. Bindings that the program makes stay in
    /// the evaluator's environment, also those made before an error.
    pub fn eval(&mut self, stmts: Vec<Stmt>) -> (outcome: Result<Vec<Option<Value>>, IntyError>)
        ensures
            final(self)@ == eval_program(old(self)@, view_stmts(stmts@)).env,
            view_program_result(outcome) == eval_program(old(self)@, view_stmts(stmts@)).results,
            outcome matches Err(error) ==> error@.is_runtime(),
            outcome matches Ok(results) ==> results.len() == stmts.len(),
    {
        let ghost program = view_stmts(stmts@);
        let ghost start = self@;
        proof {
            lemma_program_results(start, program);
        }
        let mut results: Vec<Option<Value>> = Vec::new();
        let mut i: usize = 0;
        proof {
            lemma_view_stmts(stmts@);
            assert(program.take(0) =~= Seq::empty());
            assert(view_results(results@) =~= Seq::empty());
        }
        while i < stmts.len()
            invariant
                i <= stmts.len(),
                start == old(self)@,
                program == view_stmts(stmts@),
                program.len() == stmts.len(),
                forall|j: int| 0 <= j < stmts.len() ==> program[j] == stmts@[j]@,
                self@ == eval_program(start, program.take(i as int)).env,
                eval_program(start, program.take(i as int)).results == Ok::<
                    Seq<Option<SpecValue>>,
                    SpecError,
                >(view_results(results@)),
            decreases stmts.len() - i,
        {
            let ghost before = self@;
            let outcome = self.eval_stmt(&stmts[i]);
            proof {
                assert(program.take(i + 1).drop_last() =~= program.take(i as int));
                assert(program.take(i + 1).last() == stmts@[i as int]@);
            }
            match outcome {
                Ok(result) => {
                    let ghost earlier = results@;
                    results.push(result);
                    assert(view_results(results@) =~= view_results(earlier).push(
                        view_opt_value(result),
                    ));
                },
                Err(error) => {
                    proof {
                        lemma_error_is_final(start, program, i + 1);
                        lemma_program_errors_are_runtime(start, program);
                    }
                    return Err(error);
                },
            }
            i += 1;
        }
        assert(program.take(i as int) =~= program);
        Ok(results)
    }

    /// Evaluates one statement in the evaluator's environment.
    fn eval_stmt(&mut self, stmt: &Stmt) -> (outcome: Result<Option<Value>, IntyError>)
        ensures
            final(self)@ == eval_stmt(old(self)@, stmt@).env,
            view_stmt_result(outcome) == eval_stmt(old(self)@, stmt@).result,
            final(self)@.outer == old(self)@.outer,
        decreases stmt,
    {
        match stmt {
            Stmt::Expr(expr) => match self.eval_expr(expr) {
                Ok(value) => Ok(Some(value)),
                Err(error) => Err(error),
            },
            Stmt::If { test, branch, else_branch } => {
                let truth = match self.eval_expr(test) {
                    Ok(value) => value.try_parse_bool(),
                    Err(error) => Err(error),
                };
                match truth {
                    Err(error) => Err(error),
                    Ok(true) => self.eval_stmt(branch),
                    Ok(false) => match else_branch {
                        Some(other) => self.eval_stmt(other),
                        None => Ok(None),
                    },
                }
            },
            Stmt::Let { ident, expr } => match self.eval_expr(expr) {
                Ok(value) => {
                    self.env.put(ident.clone(), value);
                    Ok(None)
                },
                Err(error) => Err(error),
            },
            Stmt::Block(stmts) => {
                if stmts.len() == 0 {
                    proof {
                        lemma_view_stmts(stmts@);
                    }
                    return Err(
                        IntyError::LogicError {
                            message: "block contained no return value".to_owned(),
                        },
                    );
                }
                let ghost body = view_stmts(stmts@);
                let ghost outside = self@;
                self.env.enter_scope();
                let mut last: Option<Value> = None;
                let mut i: usize = 0;
                proof {
                    lemma_view_stmts(stmts@);
                    assert(body.take(0) =~= Seq::empty());
                }
                while i < stmts.len()
                    invariant
                        i <= stmts.len(),
                        *stmt == Stmt::Block(*stmts),
                        outside == old(self)@,
                        stmts.len() > 0,
                        body == view_stmts(stmts@),
                        body.len() == stmts.len(),
                        forall|j: int| 0 <= j < stmts.len() ==> body[j] == stmts@[j]@,
                        self@ == eval_sequence(outside.child(), body.take(i as int)).env,
                        self@.outer == outside.child().outer,
                        eval_sequence(outside.child(), body.take(i as int)).result == Ok::<
                            Option<SpecValue>,
                            SpecError,
                        >(view_opt_value(last)),
                    decreases stmts.len() - i,
                {
                    assert(decreases_to!(stmt => stmt->Block_0[i as int]));
                    let outcome = self.eval_stmt(&stmts[i]);
                    proof {
                        assert(body.take(i + 1).drop_last() =~= body.take(i as int));
                        assert(body.take(i + 1).last() == stmts@[i as int]@);
                    }
                    match outcome {
                        Ok(result) => {
                            last = result;
                        },
                        Err(error) => {
                            proof {
                                lemma_failure_is_final(outside.child(), body, i + 1);
                            }
                            self.env.leave_scope();
                            proof {
                                lemma_child_sees_parent(outside, Seq::empty());
                            }
                            return Err(error);
                        },
                    }
                    i += 1;
                }
                assert(body.take(i as int) =~= body);
                self.env.leave_scope();
                proof {
                    lemma_child_sees_parent(outside, Seq::empty());
                }
                Ok(last)
            },
        }
    }

    /// Evaluates one expression in the evaluator's environment.
    fn eval_expr(&self, expr: &Expr) -> (outcome: Result<Value, IntyError>)
        ensures
            view_value_result(outcome) == eval_expr(self@, expr@),
        decreases expr,
    {
        match expr {
            Expr::Integer(n) => Ok(Value::Integer(*n)),
            Expr::Bool(b) => Ok(Value::Bool(*b)),
            Expr::Ident(name) => match self.env.get(name.clone()) {
                Some(value) => Ok(value),
                None => Err(IntyError::UnknownIdentifier { ident: name.clone() }),
            },
            Expr::Unary { operator, value } => match self.eval_expr(value) {
                Ok(operand) => apply_unary(*operator, operand),
                Err(error) => Err(error),
            },
            Expr::Binary { operator, lhs, rhs } => {
                let a = match self.eval_expr(lhs) {
                    Ok(value) => value.try_parse_int(),
                    Err(error) => Err(error),
                };
                match a {
                    Err(error) => Err(error),
                    Ok(a) => {
                        let b = match self.eval_expr(rhs) {
                            Ok(value) => value.try_parse_int(),
                            Err(error) => Err(error),
                        };
                        match b {
                            Err(error) => Err(error),
                            Ok(b) => match compute(*operator, a, b) {
                                Ok(n) => Ok(Value::Integer(n)),
                                Err(error) => Err(error),
                            },
                        }
                    },
                }
            },
            Expr::Logical { operator, lhs, rhs } => {
                let a = match self.eval_expr(lhs) {
                    Ok(value) => value.try_parse_bool(),
                    Err(error) => Err(error),
                };
                match a {
                    Err(error) => Err(error),
                    Ok(a) => {
                        let b = match self.eval_expr(rhs) {
                            Ok(value) => value.try_parse_bool(),
                            Err(error) => Err(error),
                        };
                        match b {
                            Err(error) => Err(error),
                            Ok(b) => Ok(
                                Value::Bool(
                                    match operator {
                                        LogOp::And => a && b,
                                        LogOp::Or => a || b,
                                    },
                                ),
                            ),
                        }
                    },
                }
            },
            Expr::Relational { operator, lhs, rhs } => match self.eval_expr(lhs) {
                Err(error) => Err(error),
                Ok(a) => match self.eval_expr(rhs) {
                    Err(error) => Err(error),
                    Ok(b) => match apply_relational(*operator, &a, &b) {
                        Ok(truth) => Ok(Value::Bool(truth)),
                        Err(error) => Err(error),
                    },
                },
            },
            Expr::List(items) => {
                let ghost models = view_exprs(items@);
                let mut values: Vec<Value> = Vec::new();
                let mut i: usize = 0;
                proof {
                    lemma_view_exprs(items@);
                    assert(models.take(0) =~= Seq::empty());
                    assert(view_values(values@) =~= Seq::empty());
                }
                while i < items.len()
                    invariant
                        i <= items.len(),
                        *expr == Expr::List(*items),
                        models == view_exprs(items@),
                        models.len() == items.len(),
                        forall|j: int| 0 <= j < items.len() ==> models[j] == items@[j]@,
                        eval_items(self@, models.take(i as int)) == Ok::<
                            Seq<SpecValue>,
                            SpecError,
                        >(view_values(values@)),
                    decreases items.len() - i,
                {
                    assert(decreases_to!(expr => expr->List_0[i as int]));
                    let outcome = self.eval_expr(&items[i]);
                    proof {
                        assert(models.take(i + 1).drop_last() =~= models.take(i as int));
                        assert(models.take(i + 1).last() == items@[i as int]@);
                    }
                    match outcome {
                        Ok(value) => {
                            let ghost earlier = values@;
                            values.push(value);
                            proof {
                                assert(values@.drop_last() =~= earlier);
                            }
                        },
                        Err(error) => {
                            proof {
                                lemma_items_error_is_final(self@, models, i + 1);
                            }
                            return Err(error);
                        },
                    }
                    i += 1;
                }
                assert(models.take(i as int) =~= models);
                Ok(Value::List(values))
            },
        }
    }
}

} // verus!
