use inty::error::IntyError;
use inty::eval::Evaluator;
use inty::run::process_string;
use inty::value::Value;

#[test]
fn main_expression_evaluation() {
    [
        ("1", Value::Integer(1)),
        ("1 + 2 + 3", Value::Integer(6)),
        ("1 + 2", Value::Integer(3)),
        ("5 - 2", Value::Integer(3)),
        ("-1", Value::Integer(-1)),
        ("-5 - 2", Value::Integer(-7)),
        ("4 + 4 + 4", Value::Integer(12)),
        ("6 - 2 + 5", Value::Integer(9)),
        ("10 - 2 + 3", Value::Integer(11)),
        ("-2 + (-5)", Value::Integer(-7)),
        ("2 * 3 + 4", Value::Integer(10)),
        ("2 + 3 * 4", Value::Integer(14)),
        ("2 + 3 * 5", Value::Integer(17)),
        ("(2 + 3) * (4 - 1)", Value::Integer(15)),
        ("(2 + 3) * 4", Value::Integer(20)),
        ("(4 + 2) * 3", Value::Integer(18)),
        ("(9 + 1) * (5 - 2)", Value::Integer(30)),
        ("1 * 2 * 3 * 4", Value::Integer(24)),
        ("1 * 2", Value::Integer(2)),
        ("3 * 3 * 3", Value::Integer(27)),
        ("4 * 5 - 3", Value::Integer(17)),
        ("7 * 2", Value::Integer(14)),
        ("10 / 2", Value::Integer(5)),
        ("10 / 5", Value::Integer(2)),
        ("10 * 10 / 5", Value::Integer(20)),
        ("1 * 4 * 5 / 10 / 2 * 10", Value::Integer(10)),
        ("3 ^ 0", Value::Integer(1)),
        ("3 ^ 1", Value::Integer(3)),
        ("3 ^ 2", Value::Integer(9)),
        ("3 ^ 3", Value::Integer(27)),
        ("-3 ^ 2", Value::Integer(-9)),
        ("-3 ^ 3", Value::Integer(-27)),
        ("(-3) ^ 2", Value::Integer(9)),
        ("(-3) ^ 3", Value::Integer(-27)),
        ("2 ^ 3 + 4", Value::Integer(12)),
        ("3 ^ 2 + 4", Value::Integer(13)),
        ("(-3) ^ 2 + 4", Value::Integer(13)),
        ("2 ^ 3 * 4 + 4", Value::Integer(36)),
        ("3 ^ 2 * 4 + 4", Value::Integer(40)),
        ("(-3) ^ 2 * 4 + 4", Value::Integer(40)),
        ("true", Value::Bool(true)),
        ("false", Value::Bool(false)),
        ("true || false", Value::Bool(true)),
        ("false || true", Value::Bool(true)),
        ("true && true", Value::Bool(true)),
        ("true && false", Value::Bool(false)),
        ("false && true", Value::Bool(false)),
        ("!true", Value::Bool(false)),
        ("!false", Value::Bool(true)),
        ("true || false && true", Value::Bool(true)),
        ("true && false || true", Value::Bool(true)),
        ("true && false && true", Value::Bool(false)),
        ("false || true || false", Value::Bool(true)),
        ("true && (false || true)", Value::Bool(true)),
        ("(true && false) || true", Value::Bool(true)),
        ("(true && false) || true", Value::Bool(true)),
        ("true && 1", Value::Bool(true)),
        ("true && 42", Value::Bool(true)),
        ("true && 0", Value::Bool(false)),
        ("true && -1", Value::Bool(false)),
        ("true && -42", Value::Bool(false)),
        ("10 == 10", Value::Bool(true)),
        ("9 != 10", Value::Bool(true)),
        ("9 < 10", Value::Bool(true)),
        ("9 <= 10", Value::Bool(true)),
        ("9 > 10", Value::Bool(false)),
        ("9 >= 10", Value::Bool(false)),
        ("if true 1 else 2", Value::Integer(1)),
        ("if !true 1 else 2", Value::Integer(2)),
        ("{ let x = 1; x }", Value::Integer(1)),
        ("{ let x = 1; let x = 2; x }", Value::Integer(2)),
        ("{ let x = 1; { let x = 2 }; x }", Value::Integer(1)),
    ]
    .into_iter()
    .enumerate()
    .for_each(|(index, (string, val))| {
        let mut eval = Evaluator::new();
        let results = process_string(&mut eval, string.to_string()).unwrap();

        assert_eq!(
            results[0],
            Some(val),
            "expression = \"{}\" (entry {})",
            string,
            index
        );
    })
}

#[test]
fn let_statement() {
    let mut eval = Evaluator::new();
    let values = process_string(&mut eval, "let x = 42; x".into()).unwrap();
    assert_eq!(vec![None, Some(Value::Integer(42))], values);
}

#[test]
fn test_expression_evaluation() {
    [
        ("1", 1),
        ("-1", -1),
        ("1 + 2", 3),
        ("1 + 2 + 3", 6),
        ("1 * 2", 2),
        ("1 * 2 * 3 * 4", 24),
        ("-5 - 2", -7),
        ("10 / 2", 5),
        ("10 - 2 + 3", 11),
        ("2 + 3 * 4", 14),
        ("2 * 3 + 4", 10),
        ("(2 + 3) * 4", 20),
        ("(2 + 3) * (4 - 1)", 15),
        ("2 ^ 0", 1),
        ("2 ^ 1", 2),
        ("2 ^ 2", 4),
        ("2 ^ 3", 8),
        ("2 ^ 3 + 4", 12),
    ]
    .into_iter()
    .for_each(|(string, val)| {
        let mut eval = Evaluator::new();
        assert_eq!(
            process_string(&mut eval, string.to_string()).unwrap(),
            vec![Some(Value::Integer(val))]
        );
    })
}

fn run(source: &str) -> Result<Vec<Option<Value>>, IntyError> {
    process_string(&mut Evaluator::new(), source.to_string())
}

#[test]
fn precedence_of_arithmetic() {
    assert_eq!(run("2 + 3 * 4").unwrap(), vec![Some(Value::Integer(14))]);
    assert_eq!(run("(2 + 3) * 4").unwrap(), vec![Some(Value::Integer(20))]);
    assert_eq!(run("20 - 6 - 4").unwrap(), vec![Some(Value::Integer(10))]);
    assert_eq!(run("100 / 10 / 5").unwrap(), vec![Some(Value::Integer(2))]);
    assert_eq!(run("2 * (3 + 4) - 10 / 5").unwrap(), vec![Some(Value::Integer(12))]);
}

#[test]
fn power_groups_right() {
    assert_eq!(run("2 ^ 3 ^ 2").unwrap(), vec![Some(Value::Integer(512))]);
    assert_eq!(run("(2 ^ 3) ^ 2").unwrap(), vec![Some(Value::Integer(64))]);
}

#[test]
fn unary_minus_and_power() {
    assert_eq!(run("-3 ^ 2").unwrap(), vec![Some(Value::Integer(-9))]);
    assert_eq!(run("(-3) ^ 2").unwrap(), vec![Some(Value::Integer(9))]);
    assert_eq!(run("1 + -3").unwrap(), vec![Some(Value::Integer(-2))]);
}

#[test]
fn division_by_zero_is_an_error() {
    assert_eq!(run("10 / 0").unwrap_err(), IntyError::DivideByZeroError);
}

#[test]
fn negative_exponent_is_a_logic_error() {
    assert_eq!(
        run("2 ^ -1").unwrap_err(),
        IntyError::LogicError {
            message: "power must be non-negative integer".to_string()
        }
    );
}

#[test]
fn shadowing() {
    assert_eq!(
        run("{ let x = 1; let x = 2; x }").unwrap(),
        vec![Some(Value::Integer(2))]
    );
    assert_eq!(
        run("{ let x = 1; { let x = 2 }; x }").unwrap(),
        vec![Some(Value::Integer(1))]
    );
}

#[test]
fn unknown_identifier_is_unresolved() {
    assert_eq!(
        run("y").unwrap_err(),
        IntyError::UnknownIdentifier {
            ident: "y".to_string()
        }
    );
}

#[test]
fn if_without_else() {
    assert_eq!(run("if false 1").unwrap(), vec![None]);
    assert_eq!(run("if false 1 else 2").unwrap(), vec![Some(Value::Integer(2))]);
}

#[test]
fn malformed_input_is_a_syntax_error() {
    assert_eq!(
        run("]").unwrap_err(),
        IntyError::SyntaxError {
            token: Some(inty::token::Token::RightBracket),
            message: "unexpected token".to_string()
        }
    );
    assert_eq!(
        run("+").unwrap_err(),
        IntyError::SyntaxError {
            token: Some(inty::token::Token::Plus),
            message: "unexpected token".to_string()
        }
    );
    assert_eq!(
        run("1 +").unwrap_err(),
        IntyError::SyntaxError {
            token: Some(inty::token::Token::Plus),
            message: "unexpected token".to_string()
        }
    );
    assert_eq!(
        run("2 + 3 4 + 5").unwrap_err(),
        IntyError::InvalidExpressionError {
            message: "tokens remaining after parsing".to_string()
        }
    );
}

#[test]
fn lists_from_source() {
    assert_eq!(
        run("[1, 2 + 3, true, [4]]").unwrap(),
        vec![Some(Value::List(vec![
            Value::Integer(1),
            Value::Integer(5),
            Value::Bool(true),
            Value::List(vec![Value::Integer(4)]),
        ]))]
    );
    assert_eq!(run("[,1,,2,]").unwrap(), vec![Some(Value::List(vec![
        Value::Integer(1),
        Value::Integer(2),
    ]))]);
}

#[test]
fn session_keeps_its_environment() {
    let mut eval = Evaluator::new();
    assert_eq!(
        process_string(&mut eval, "let a = 6".to_string()).unwrap(),
        vec![None]
    );
    // A line that fails leaves what came before it.
    assert_eq!(
        process_string(&mut eval, "let b = 7; b / 0; let c = 1".to_string()).unwrap_err(),
        IntyError::DivideByZeroError
    );
    assert!(process_string(&mut eval, "a * ?".to_string()).is_err());
    assert!(process_string(&mut eval, "a * ".to_string()).is_err());
    assert_eq!(
        process_string(&mut eval, "a * b".to_string()).unwrap(),
        vec![Some(Value::Integer(42))]
    );
    assert_eq!(
        process_string(&mut eval, "c".to_string()).unwrap_err(),
        IntyError::UnknownIdentifier {
            ident: "c".to_string()
        }
    );
}

#[test]
fn empty_source() {
    assert_eq!(run("").unwrap(), vec![]);
    assert_eq!(run("   ").unwrap(), vec![]);
}
