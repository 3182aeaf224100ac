use inty::env::Environment;
use inty::error::IntyError;
use inty::eval::Evaluator;
use inty::expr::Expr;
use inty::op::{BinOp, LogOp, RelOp, UnOp};
use inty::stmt::Stmt;
use inty::value::Value;
use std::rc::Rc;

#[test]
fn test_single_number() {
    let value = Evaluator::new()
        .eval(vec![Stmt::Expr(Expr::Integer(100))])
        .unwrap();

    assert_eq!(vec![Some(Value::Integer(100))], value);
}

#[test]
fn test_basic_addition() {
    let value = Evaluator::new()
        .eval(vec![Stmt::Expr(Expr::Binary {
            operator: BinOp::Add,
            lhs: Rc::new(Expr::Integer(1)),
            rhs: Rc::new(Expr::Integer(2)),
        })])
        .unwrap();

    assert_eq!(vec![Some(Value::Integer(3))], value);
}

#[test]
fn single_number() {
    let value = Evaluator::new()
        .eval(vec![Stmt::Expr(Expr::Integer(100))])
        .unwrap();

    assert_eq!(
        Value::Integer(100),
        *value.last().unwrap().as_ref().unwrap()
    );
}

#[test]
fn basic_addition() {
    let value = Evaluator::new()
        .eval(vec![Stmt::Expr(Expr::Binary {
            operator: BinOp::Add,
            lhs: Rc::new(Expr::Integer(1)),
            rhs: Rc::new(Expr::Integer(2)),
        })])
        .unwrap();

    assert_eq!(Value::Integer(3), *value.last().unwrap().as_ref().unwrap());
}

#[test]
fn variable_assignment() {
    let mut evaler = Evaluator::new();

    evaler
        .eval(vec![Stmt::Let {
            ident: "foo".into(),
            expr: Expr::Integer(42),
        }])
        .unwrap();

    assert_eq!(
        42,
        evaler
            .env()
            .get("foo".into())
            .unwrap()
            .unwrap_integer()
            .unwrap()
    );
}

#[test]
fn variable_assignment_and_retrieval() {
    let mut evaler = Evaluator::new();

    let value = evaler
        .eval(vec![
            Stmt::Let {
                ident: "foo".into(),
                expr: Expr::Integer(42),
            },
            Stmt::Expr(Expr::Ident("foo".to_string())),
        ])
        .unwrap();

    assert_eq!(Value::Integer(42), *value.last().unwrap().as_ref().unwrap());
}

fn num(value: i32) -> Rc<Expr> {
    Rc::new(Expr::Integer(value))
}

fn boolean(value: bool) -> Rc<Expr> {
    Rc::new(Expr::Bool(value))
}

fn binary(operator: BinOp, lhs: i32, rhs: i32) -> Expr {
    Expr::Binary {
        operator,
        lhs: num(lhs),
        rhs: num(rhs),
    }
}

fn eval_one(expr: Expr) -> Result<Value, IntyError> {
    let mut results = Evaluator::new().eval(vec![Stmt::Expr(expr)])?;
    Ok(results.pop().unwrap().unwrap())
}

fn logic_error(message: &str) -> IntyError {
    IntyError::LogicError {
        message: message.to_string(),
    }
}

fn type_error(message: &str) -> IntyError {
    IntyError::TypeError {
        message: message.to_string(),
    }
}

#[test]
fn arithmetic_exact_values() {
    assert_eq!(eval_one(binary(BinOp::Add, 2, 3)).unwrap(), Value::Integer(5));
    assert_eq!(eval_one(binary(BinOp::Sub, 2, 3)).unwrap(), Value::Integer(-1));
    assert_eq!(eval_one(binary(BinOp::Mul, -4, 3)).unwrap(), Value::Integer(-12));
    assert_eq!(eval_one(binary(BinOp::Div, 7, 2)).unwrap(), Value::Integer(3));
    assert_eq!(eval_one(binary(BinOp::Div, -7, 2)).unwrap(), Value::Integer(-3));
    assert_eq!(eval_one(binary(BinOp::Div, 7, -2)).unwrap(), Value::Integer(-3));
    assert_eq!(eval_one(binary(BinOp::Div, -7, -2)).unwrap(), Value::Integer(3));
    assert_eq!(eval_one(binary(BinOp::Pow, 2, 10)).unwrap(), Value::Integer(1024));
    assert_eq!(eval_one(binary(BinOp::Pow, -3, 3)).unwrap(), Value::Integer(-27));
    assert_eq!(eval_one(binary(BinOp::Pow, 0, 0)).unwrap(), Value::Integer(1));
    assert_eq!(eval_one(binary(BinOp::Pow, 0, 5)).unwrap(), Value::Integer(0));
    assert_eq!(eval_one(binary(BinOp::Pow, 1, 2147483647)).unwrap(), Value::Integer(1));
    assert_eq!(eval_one(binary(BinOp::Pow, -1, 2147483647)).unwrap(), Value::Integer(-1));
    assert_eq!(eval_one(binary(BinOp::Pow, -1, 2147483646)).unwrap(), Value::Integer(1));
    assert_eq!(
        eval_one(binary(BinOp::Pow, -2, 31)).unwrap(),
        Value::Integer(-2147483648)
    );
    assert_eq!(
        eval_one(binary(BinOp::Pow, 2, 30)).unwrap(),
        Value::Integer(1073741824)
    );
}

#[test]
fn division_by_zero() {
    assert_eq!(
        eval_one(binary(BinOp::Div, 10, 0)).unwrap_err(),
        IntyError::DivideByZeroError
    );
    assert_eq!(
        eval_one(binary(BinOp::Div, 0, 0)).unwrap_err(),
        IntyError::DivideByZeroError
    );
}

#[test]
fn negative_exponent() {
    assert_eq!(
        eval_one(binary(BinOp::Pow, 2, -1)).unwrap_err(),
        logic_error("power must be non-negative integer")
    );
}

#[test]
fn arithmetic_out_of_range() {
    let overflow = logic_error("integer overflow");
    assert_eq!(
        eval_one(binary(BinOp::Add, 2147483647, 1)).unwrap_err(),
        overflow
    );
    assert_eq!(
        eval_one(binary(BinOp::Sub, -2147483648, 1)).unwrap_err(),
        overflow
    );
    assert_eq!(
        eval_one(binary(BinOp::Mul, 65536, 32768)).unwrap_err(),
        overflow
    );
    assert_eq!(
        eval_one(binary(BinOp::Div, -2147483648, -1)).unwrap_err(),
        overflow
    );
    assert_eq!(eval_one(binary(BinOp::Pow, 2, 31)).unwrap_err(), overflow);
    assert_eq!(eval_one(binary(BinOp::Pow, -2, 32)).unwrap_err(), overflow);
    assert_eq!(
        eval_one(binary(BinOp::Pow, 3, 2147483647)).unwrap_err(),
        overflow
    );
    assert_eq!(
        eval_one(Expr::Unary {
            operator: UnOp::Minus,
            value: num(-2147483648),
        })
        .unwrap_err(),
        overflow
    );
    assert_eq!(
        eval_one(binary(BinOp::Mul, -65536, 32768)).unwrap(),
        Value::Integer(-2147483648)
    );
}

#[test]
fn unary_operators() {
    assert_eq!(
        eval_one(Expr::Unary {
            operator: UnOp::Minus,
            value: num(5),
        })
        .unwrap(),
        Value::Integer(-5)
    );
    assert_eq!(
        eval_one(Expr::Unary {
            operator: UnOp::Plus,
            value: boolean(true),
        })
        .unwrap(),
        Value::Bool(true)
    );
    assert_eq!(
        eval_one(Expr::Unary {
            operator: UnOp::Negate,
            value: num(3),
        })
        .unwrap(),
        Value::Bool(false)
    );
    assert_eq!(
        eval_one(Expr::Unary {
            operator: UnOp::Negate,
            value: num(0),
        })
        .unwrap(),
        Value::Bool(true)
    );
    assert_eq!(
        eval_one(Expr::Unary {
            operator: UnOp::Minus,
            value: boolean(true),
        })
        .unwrap_err(),
        type_error("expected integer")
    );
    assert_eq!(
        eval_one(Expr::Unary {
            operator: UnOp::Negate,
            value: Rc::new(Expr::List(vec![Expr::Integer(1)])),
        })
        .unwrap_err(),
        type_error("[1] is not a boolean")
    );
}

#[test]
fn operands_of_the_wrong_kind() {
    assert_eq!(
        eval_one(Expr::Binary {
            operator: BinOp::Add,
            lhs: boolean(true),
            rhs: num(1),
        })
        .unwrap_err(),
        type_error("true is not an integer")
    );
    assert_eq!(
        eval_one(Expr::Binary {
            operator: BinOp::Add,
            lhs: num(1),
            rhs: Rc::new(Expr::List(vec![Expr::Integer(1), Expr::Bool(false)])),
        })
        .unwrap_err(),
        type_error("[1, false] is not an integer")
    );
    // The left operand is looked at first.
    assert_eq!(
        eval_one(Expr::Binary {
            operator: BinOp::Div,
            lhs: boolean(false),
            rhs: Rc::new(Expr::Ident("nowhere".to_string())),
        })
        .unwrap_err(),
        type_error("false is not an integer")
    );
    assert_eq!(
        eval_one(Expr::Logical {
            operator: LogOp::And,
            lhs: Rc::new(Expr::List(vec![])),
            rhs: boolean(true),
        })
        .unwrap_err(),
        type_error("[] is not a boolean")
    );
}

#[test]
fn logical_operators_evaluate_both_sides() {
    // No short circuit: the right operand fails although the left decides.
    assert_eq!(
        eval_one(Expr::Logical {
            operator: LogOp::Or,
            lhs: boolean(true),
            rhs: Rc::new(Expr::Ident("missing".to_string())),
        })
        .unwrap_err(),
        IntyError::UnknownIdentifier {
            ident: "missing".to_string()
        }
    );
    assert_eq!(
        eval_one(Expr::Logical {
            operator: LogOp::And,
            lhs: num(2),
            rhs: num(-2),
        })
        .unwrap(),
        Value::Bool(false)
    );
    assert_eq!(
        eval_one(Expr::Logical {
            operator: LogOp::Or,
            lhs: num(0),
            rhs: num(1),
        })
        .unwrap(),
        Value::Bool(true)
    );
}

#[test]
fn comparisons() {
    let cases = vec![
        (RelOp::Eq, false),
        (RelOp::Ne, true),
        (RelOp::Gt, false),
        (RelOp::Lt, true),
        (RelOp::Gte, false),
        (RelOp::Lte, true),
    ];
    for (operator, expected) in cases {
        assert_eq!(
            eval_one(Expr::Relational {
                operator,
                lhs: num(9),
                rhs: num(10),
            })
            .unwrap(),
            Value::Bool(expected)
        );
    }
    assert_eq!(
        eval_one(Expr::Relational {
            operator: RelOp::Eq,
            lhs: boolean(true),
            rhs: boolean(true),
        })
        .unwrap(),
        Value::Bool(true)
    );
    assert_eq!(
        eval_one(Expr::Relational {
            operator: RelOp::Ne,
            lhs: boolean(true),
            rhs: boolean(true),
        })
        .unwrap(),
        Value::Bool(false)
    );
    assert_eq!(
        eval_one(Expr::Relational {
            operator: RelOp::Lt,
            lhs: boolean(true),
            rhs: boolean(false),
        })
        .unwrap_err(),
        type_error("invalid operation")
    );
    assert_eq!(
        eval_one(Expr::Relational {
            operator: RelOp::Eq,
            lhs: num(1),
            rhs: boolean(true),
        })
        .unwrap_err(),
        type_error("invalid comparison")
    );
    assert_eq!(
        eval_one(Expr::Relational {
            operator: RelOp::Eq,
            lhs: Rc::new(Expr::List(vec![])),
            rhs: Rc::new(Expr::List(vec![])),
        })
        .unwrap_err(),
        type_error("invalid comparison")
    );
}

#[test]
fn list_literals() {
    assert_eq!(
        eval_one(Expr::List(vec![
            binary(BinOp::Add, 1, 2),
            Expr::Bool(true),
            Expr::List(vec![]),
        ]))
        .unwrap(),
        Value::List(vec![
            Value::Integer(3),
            Value::Bool(true),
            Value::List(vec![]),
        ])
    );
    // The first element that fails gives the error.
    assert_eq!(
        eval_one(Expr::List(vec![
            Expr::Integer(1),
            binary(BinOp::Div, 1, 0),
            Expr::Ident("missing".to_string()),
        ]))
        .unwrap_err(),
        IntyError::DivideByZeroError
    );
}

#[test]
fn unknown_identifier() {
    assert_eq!(
        eval_one(Expr::Ident("y".to_string())).unwrap_err(),
        IntyError::UnknownIdentifier {
            ident: "y".to_string()
        }
    );
}

#[test]
fn if_statements() {
    let mut evaluator = Evaluator::new();
    let results = evaluator
        .eval(vec![
            Stmt::If {
                test: Expr::Bool(false),
                branch: Rc::new(Stmt::Expr(Expr::Integer(1))),
                else_branch: None,
            },
            Stmt::If {
                test: Expr::Bool(false),
                branch: Rc::new(Stmt::Expr(Expr::Integer(1))),
                else_branch: Some(Rc::new(Stmt::Expr(Expr::Integer(2)))),
            },
            Stmt::If {
                test: Expr::Integer(7),
                branch: Rc::new(Stmt::Let {
                    ident: "x".to_string(),
                    expr: Expr::Integer(5),
                }),
                else_branch: None,
            },
            Stmt::Expr(Expr::Ident("x".to_string())),
        ])
        .unwrap();
    assert_eq!(
        results,
        vec![None, Some(Value::Integer(2)), None, Some(Value::Integer(5))]
    );
    assert_eq!(
        Evaluator::new()
            .eval(vec![Stmt::If {
                test: Expr::List(vec![]),
                branch: Rc::new(Stmt::Expr(Expr::Integer(1))),
                else_branch: None,
            }])
            .unwrap_err(),
        type_error("[] is not a boolean")
    );
}

#[test]
fn blocks_and_shadowing() {
    let mut evaluator = Evaluator::new();
    let results = evaluator
        .eval(vec![
            Stmt::Let {
                ident: "x".to_string(),
                expr: Expr::Integer(1),
            },
            Stmt::Block(vec![
                Stmt::Let {
                    ident: "x".to_string(),
                    expr: Expr::Integer(2),
                },
                Stmt::Let {
                    ident: "y".to_string(),
                    expr: Expr::Integer(3),
                },
                Stmt::Expr(Expr::Binary {
                    operator: BinOp::Add,
                    lhs: Rc::new(Expr::Ident("x".to_string())),
                    rhs: Rc::new(Expr::Ident("y".to_string())),
                }),
            ]),
            Stmt::Expr(Expr::Ident("x".to_string())),
            Stmt::Block(vec![Stmt::Let {
                ident: "z".to_string(),
                expr: Expr::Integer(2),
            }]),
        ])
        .unwrap();
    assert_eq!(
        results,
        vec![
            None,
            Some(Value::Integer(5)),
            Some(Value::Integer(1)),
            None
        ]
    );
    assert_eq!(evaluator.env().get("x".to_string()), Some(Value::Integer(1)));
    assert_eq!(evaluator.env().get("y".to_string()), None);
    assert_eq!(evaluator.env().get("z".to_string()), None);
}

#[test]
fn empty_block() {
    assert_eq!(
        Evaluator::new().eval(vec![Stmt::Block(vec![])]).unwrap_err(),
        logic_error("block contained no return value")
    );
}

#[test]
fn block_stops_at_first_error_and_restores_scope() {
    let mut evaluator = Evaluator::new();
    let outcome = evaluator.eval(vec![
        Stmt::Let {
            ident: "a".to_string(),
            expr: Expr::Integer(1),
        },
        Stmt::Block(vec![
            Stmt::Let {
                ident: "b".to_string(),
                expr: Expr::Integer(2),
            },
            Stmt::Expr(binary(BinOp::Div, 1, 0)),
            Stmt::Expr(Expr::Integer(3)),
        ]),
        Stmt::Let {
            ident: "c".to_string(),
            expr: Expr::Integer(3),
        },
    ]);
    assert_eq!(outcome.unwrap_err(), IntyError::DivideByZeroError);
    // What came before the error stays, the block's scope is gone, and
    // nothing after the error has run.
    assert_eq!(evaluator.env().get("a".to_string()), Some(Value::Integer(1)));
    assert_eq!(evaluator.env().get("b".to_string()), None);
    assert_eq!(evaluator.env().get("c".to_string()), None);
    assert!(evaluator.env().has("a".to_string()));
    assert_eq!(
        evaluator
            .eval(vec![Stmt::Expr(Expr::Ident("a".to_string()))])
            .unwrap(),
        vec![Some(Value::Integer(1))]
    );
}

#[test]
fn environment_scopes() {
    let mut env = Environment::new();
    assert_eq!(env.get("x".to_string()), None);
    assert!(!env.has("x".to_string()));
    assert_eq!(env.put("x".to_string(), Value::Integer(1)), None);
    assert_eq!(
        env.put("x".to_string(), Value::Integer(2)),
        Some(Value::Integer(1))
    );
    assert!(env.has("x".to_string()));

    let mut child = Environment::new_with_parent(env);
    assert!(!child.has("x".to_string()));
    assert_eq!(child.get("x".to_string()), Some(Value::Integer(2)));
    // A binding in the child hides the parent's and returns no old value.
    assert_eq!(child.put("x".to_string(), Value::Bool(true)), None);
    assert_eq!(child.get("x".to_string()), Some(Value::Bool(true)));

    let mut grandchild = child.wrap();
    assert_eq!(grandchild.get("x".to_string()), Some(Value::Bool(true)));
    assert_eq!(grandchild.put("y".to_string(), Value::Integer(9)), None);
    grandchild.leave_scope();
    assert_eq!(grandchild.get("y".to_string()), None);
    assert_eq!(grandchild.get("x".to_string()), Some(Value::Bool(true)));
    grandchild.leave_scope();
    assert_eq!(grandchild.get("x".to_string()), Some(Value::Integer(2)));
    // The outermost scope stays.
    grandchild.leave_scope();
    assert_eq!(grandchild.get("x".to_string()), Some(Value::Integer(2)));
    grandchild.enter_scope();
    assert!(!grandchild.has("x".to_string()));
    assert_eq!(grandchild.get("x".to_string()), Some(Value::Integer(2)));
}

#[test]
fn evaluator_with_environment() {
    let mut env = Environment::new();
    env.put("n".to_string(), Value::Integer(20));
    let mut evaluator = Evaluator::new_with_env(env);
    assert_eq!(
        evaluator
            .eval(vec![Stmt::Expr(Expr::Binary {
                operator: BinOp::Mul,
                lhs: Rc::new(Expr::Ident("n".to_string())),
                rhs: num(2),
            })])
            .unwrap(),
        vec![Some(Value::Integer(40))]
    );
}

#[test]
fn value_accessors() {
    assert_eq!(Value::Integer(3).unwrap_integer(), Some(3));
    assert_eq!(Value::Bool(true).unwrap_integer(), None);
    assert_eq!(Value::Bool(true).unwrap_bool(), Some(true));
    assert_eq!(Value::Integer(1).unwrap_bool(), None);
    assert_eq!(Value::List(vec![]).unwrap_bool(), None);

    assert_eq!(Value::Integer(3).try_parse_int().unwrap(), 3);
    assert_eq!(
        Value::Bool(false).try_parse_int().unwrap_err(),
        type_error("false is not an integer")
    );
    assert_eq!(Value::Bool(false).try_parse_bool().unwrap(), false);
    assert_eq!(Value::Integer(1).try_parse_bool().unwrap(), true);
    assert_eq!(Value::Integer(0).try_parse_bool().unwrap(), false);
    assert_eq!(Value::Integer(-5).try_parse_bool().unwrap(), false);
    assert_eq!(
        Value::List(vec![Value::Integer(1), Value::Integer(2)])
            .try_parse_bool()
            .unwrap_err(),
        type_error("[1, 2] is not a boolean")
    );
}

#[test]
fn value_rendering() {
    assert_eq!(Value::Integer(0).to_string(), "0");
    assert_eq!(Value::Integer(-17).to_string(), "-17");
    assert_eq!(Value::Integer(2147483647).to_string(), "2147483647");
    assert_eq!(Value::Integer(-2147483648).to_string(), "-2147483648");
    assert_eq!(Value::Bool(true).to_string(), "true");
    assert_eq!(Value::Bool(false).to_string(), "false");
    assert_eq!(Value::List(vec![]).to_string(), "[]");
    assert_eq!(
        Value::List(vec![
            Value::Integer(1),
            Value::List(vec![Value::Bool(true), Value::Integer(-2)]),
            Value::Integer(3),
        ])
        .to_string(),
        "[1, [true, -2], 3]"
    );
    let list = Value::List(vec![Value::Integer(1), Value::List(vec![Value::Bool(true)])]);
    assert_eq!(list.clone(), list);
}

#[test]
fn error_lines() {
    assert_eq!(
        IntyError::SyntaxError {
            token: None,
            message: "expected right brace".to_string()
        }
        .to_string(),
        "syntax error: expected right brace"
    );
    assert_eq!(
        IntyError::UnexpectedChar { character: '?' }.to_string(),
        "unexpected character: ?"
    );
    assert_eq!(
        IntyError::ExpectedTokenError {
            expected: inty::token::Token::RightParen,
            found: inty::token::Token::Integer(4),
        }
        .to_string(),
        "expected ), found 4"
    );
    assert_eq!(
        logic_error("integer overflow").to_string(),
        "logic error: integer overflow"
    );
    assert_eq!(
        IntyError::DivideByZeroError.to_string(),
        "cannot divide by zero"
    );
    assert_eq!(
        IntyError::InvalidExpressionError {
            message: "tokens remaining after parsing".to_string()
        }
        .to_string(),
        "invalid expression: tokens remaining after parsing"
    );
    assert_eq!(
        IntyError::UnknownIdentifier {
            ident: "y".to_string()
        }
        .to_string(),
        "unknown identifier: y"
    );
    assert_eq!(
        type_error("expected integer").to_string(),
        "type error: expected integer"
    );
    assert_eq!(
        IntyError::ParseIntError {
            literal: "2147483648".to_string()
        }
        .to_string(),
        "parse int error: 2147483648 is too large to fit in 32 bits"
    );
}
