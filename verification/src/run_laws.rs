//! What holds of the three stages in a row, from source text to results.

use vstd::prelude::*;
use crate::env::SpecEnv;
use crate::error::SpecError;
use crate::expr::SpecExpr;
use crate::grammar::program;
use crate::grammar_laws::lemma_parse_errors_are_syntactic;
use crate::lexer::lex;
use crate::op::BinOp;
use crate::lexer_laws::{lemma_lex_errors_are_lexical, lemma_text_round_trip};
use crate::run::run;
use crate::semantics::eval_program;
use crate::semantics_laws::{
    exact_value, is_arithmetic, is_computable, lemma_arithmetic_value,
    lemma_program_errors_are_runtime,
};
use crate::spelling::{is_writable, spell, spell_items, strength, written};
use crate::spelling_laws::lemma_spelling_round_trip;
use crate::stmt::SpecStmt;
use crate::token::SpecToken;
use crate::value::SpecValue;

verus! {

/// Every failure is the first stage's that fails: a text that does not
/// tokenize is a lexical error, one that tokenizes but does not parse is a
/// syntactic error, and one that parses fails, if at all, with an error of
/// the evaluator. Only evaluation changes the environment.
pub proof fn lemma_run_errors(env: SpecEnv, source: Seq<char>)
    ensures
        lex(source) is Err ==> run(env, source).env == env && (run(env, source).results matches Err(
            error,
        ) && error.is_lexical()),
        lex(source) matches Ok(tokens) && program(tokens) is Err ==> run(env, source).env == env
            && (run(env, source).results matches Err(error) && error.is_syntactic()),
        lex(source) matches Ok(tokens) && program(tokens) is Ok ==> (run(
            env,
            source,
        ).results matches Err(error) ==> error.is_runtime()),
{
    lemma_lex_errors_are_lexical(source, 0);
    if let Ok(tokens) = lex(source) {
        lemma_parse_errors_are_syntactic(tokens);
        if let Ok(stmts) = program(tokens) {
            lemma_program_errors_are_runtime(env, stmts);
        }
    }
}

/// Whether all of `tokens` are such as the lexer can give.
pub open spec fn all_readable(tokens: Seq<SpecToken>) -> bool {
    forall|i: int| 0 <= i < tokens.len() ==> (#[trigger] tokens[i]).is_readable()
}

/// Readable tokens after readable tokens are readable tokens.
proof fn lemma_readable_joined(first: Seq<SpecToken>, second: Seq<SpecToken>)
    requires
        all_readable(first),
        all_readable(second),
    ensures
        all_readable(first + second),
{
    let both = first + second;
    assert forall|i: int| 0 <= i < both.len() implies (#[trigger] both[i]).is_readable() by {
        if i < first.len() {
            assert(both[i] == first[i]);
        } else {
            assert(both[i] == second[i - first.len()]);
        }
    }
}

/// An expression that can be written as text is spelled with tokens that
/// the lexer can give.
pub proof fn lemma_spelled_readable(expr: SpecExpr, need: nat)
    requires
        is_writable(expr),
    ensures
        all_readable(spell(expr, need)),
    decreases expr, (if need > strength(expr) { 1nat } else { 0nat }), 0nat,
{
    if need > strength(expr) {
        lemma_spelled_readable(expr, 0);
        lemma_readable_joined(seq![SpecToken::LeftParen], spell(expr, 0));
        lemma_readable_joined(
            seq![SpecToken::LeftParen] + spell(expr, 0),
            seq![SpecToken::RightParen],
        );
    } else {
        match expr {
            SpecExpr::Unary { operator, value } => {
                lemma_spelled_readable(*value, strength(expr));
                lemma_readable_joined(seq![operator.token()], spell(*value, strength(expr)));
            },
            SpecExpr::Binary { operator, lhs, rhs } => {
                let (left_need, right_need) = if operator == BinOp::Pow {
                    (6nat, 5nat)
                } else {
                    (strength(expr), strength(expr) + 1)
                };
                lemma_spelled_readable(*lhs, left_need);
                lemma_spelled_readable(*rhs, right_need);
                lemma_readable_joined(spell(*lhs, left_need), seq![operator.token()]);
                lemma_readable_joined(
                    spell(*lhs, left_need) + seq![operator.token()],
                    spell(*rhs, right_need),
                );
            },
            SpecExpr::Logical { operator, lhs, rhs } => {
                lemma_spelled_readable(*lhs, strength(expr));
                lemma_spelled_readable(*rhs, strength(expr) + 1);
                lemma_readable_joined(spell(*lhs, strength(expr)), seq![operator.token()]);
                lemma_readable_joined(
                    spell(*lhs, strength(expr)) + seq![operator.token()],
                    spell(*rhs, strength(expr) + 1),
                );
            },
            SpecExpr::Relational { operator, lhs, rhs } => {
                lemma_spelled_readable(*lhs, strength(expr));
                lemma_spelled_readable(*rhs, strength(expr) + 1);
                lemma_readable_joined(spell(*lhs, strength(expr)), seq![operator.token()]);
                lemma_readable_joined(
                    spell(*lhs, strength(expr)) + seq![operator.token()],
                    spell(*rhs, strength(expr) + 1),
                );
            },
            SpecExpr::List(items) => {
                lemma_items_spelled_readable(items, 0);
                lemma_readable_joined(seq![SpecToken::LeftBracket], spell_items(items, 0));
                lemma_readable_joined(
                    seq![SpecToken::LeftBracket] + spell_items(items, 0),
                    seq![SpecToken::RightBracket],
                );
            },
            _ => {},
        }
    }
}

/// The same for the elements of a list.
pub proof fn lemma_items_spelled_readable(items: Seq<SpecExpr>, from: int)
    requires
        forall|i: int| 0 <= i < items.len() ==> is_writable(#[trigger] items[i]),
    ensures
        all_readable(spell_items(items, from)),
    decreases items, 0nat, items.len() - from,
{
    if 0 <= from < items.len() {
        lemma_spelled_readable(items[from], 0);
        if from + 1 < items.len() {
            lemma_items_spelled_readable(items, from + 1);
            lemma_readable_joined(spell(items[from], 0), seq![SpecToken::Comma]);
            lemma_readable_joined(
                spell(items[from], 0) + seq![SpecToken::Comma],
                spell_items(items, from + 1),
            );
        }
    }
}

/// The text of an expression means the expression: written with
/// parentheses only where the binding strength of its operators demands
/// them, tokenized, parsed and evaluated, an expression has the effect of
/// its tree.
pub proof fn lemma_source_round_trip(env: SpecEnv, expr: SpecExpr)
    requires
        is_writable(expr),
    ensures
        lex(written(spell(expr, 0))) == Ok::<Seq<SpecToken>, SpecError>(spell(expr, 0)),
        program(spell(expr, 0)) == Ok::<Seq<SpecStmt>, SpecError>(seq![SpecStmt::Expr(expr)]),
        run(env, written(spell(expr, 0))) == eval_program(env, seq![SpecStmt::Expr(expr)]),
{
    lemma_spelled_readable(expr, 0);
    lemma_text_round_trip(spell(expr, 0));
    lemma_spelling_round_trip(expr);
}

/// Evaluation follows the usual rules of arithmetic: the text of an
/// expression of integer literals, `+`, `-`, `*`, `/` and parentheses, which
/// stand only where those rules demand them, evaluates to the value that
/// the expression has over the integers, with `*` and `/` before `+` and `-`
/// and equal operators from left to right, whenever no divisor is zero and
/// every intermediate value is a 32-bit integer.
pub proof fn lemma_arithmetic_as_written(env: SpecEnv, expr: SpecExpr)
    requires
        is_arithmetic(expr),
        is_writable(expr),
        is_computable(expr),
    ensures
        run(env, written(spell(expr, 0))).results == Ok::<Seq<Option<SpecValue>>, SpecError>(
            seq![Some(SpecValue::Integer(exact_value(expr) as i32))],
        ),
        run(env, written(spell(expr, 0))).env == env,
{
    lemma_source_round_trip(env, expr);
    lemma_arithmetic_value(env, expr);
    let stmts = seq![SpecStmt::Expr(expr)];
    assert(stmts.drop_last() =~= Seq::empty());
    assert(eval_program(env, stmts.drop_last()).results == Ok::<
        Seq<Option<SpecValue>>,
        SpecError,
    >(Seq::empty()));
    assert(Seq::<Option<SpecValue>>::empty().push(
        Some(SpecValue::Integer(exact_value(expr) as i32)),
    ) =~= seq![Some(SpecValue::Integer(exact_value(expr) as i32))]);
}

} // verus!
