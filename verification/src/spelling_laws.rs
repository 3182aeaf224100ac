//! The parser reads every expression as it is written.

use vstd::prelude::*;
use crate::error::SpecError;
use crate::expr::SpecExpr;
use crate::grammar::{
    after, binary_node, chain, chain_from, elements, expect, expression, operand, power,
    program, program_from, statement, unary, Failure, Level,
};
use crate::op::{relational_operator, BinOp};
use crate::pieces::{lemma_stands_split, stands};
use crate::spelling::{spell, spell_items, strength};
use crate::stmt::SpecStmt;
use crate::token::SpecToken;

verus! {

/// The strength with which a token binds as a binary operator, if it is
/// one.
pub open spec fn binding(token: SpecToken) -> Option<nat> {
    match token {
        SpecToken::Or => Some(0),
        SpecToken::And => Some(1),
        SpecToken::Plus => Some(3),
        SpecToken::Hyphen => Some(3),
        SpecToken::Star => Some(4),
        SpecToken::Divide => Some(4),
        SpecToken::Caret => Some(5),
        _ => if relational_operator(token) is Some {
            Some(2)
        } else {
            None
        },
    }
}

/// Whether what stands at position `at` leaves an operand of strength
/// `need` alone: it is no binary operator that binds tighter than `need`,
/// and no `^` after a power.
pub open spec fn clear(tokens: Seq<SpecToken>, at: int, need: nat) -> bool {
    0 <= at < tokens.len() ==> (binding(tokens[at]) matches Some(bound) ==> bound <= need && !(need
        == 5 && bound == 5))
}

/// The level of the operators of strength `need`.
pub open spec fn level_at(need: nat) -> Level {
    if need == 0 {
        Level::Or
    } else if need == 1 {
        Level::And
    } else if need == 2 {
        Level::Relational
    } else if need == 3 {
        Level::Additive
    } else {
        Level::Multiplicative
    }
}

/// What the grammar makes of `expr` written at position `at` where an
/// operand of strength `need` is read: the unary expression or the power is
/// `expr` itself; an expression of a level is `expr` followed by whatever
/// operators of that level come after it.
pub open spec fn read_as(tokens: Seq<SpecToken>, at: int, expr: SpecExpr, need: nat) -> bool {
    let used = spell(expr, need).len();
    if need >= 6 {
        unary(tokens, at) == Ok::<(SpecExpr, nat), Failure>((expr, used))
    } else if need == 5 {
        power(tokens, at) == Ok::<(SpecExpr, nat), Failure>((expr, used))
    } else {
        chain(tokens, at, level_at(need)) == after(
            used,
            chain_from(tokens, at + used, level_at(need), expr),
        )
    }
}

/// The order in which the proof goes through the strengths at which one
/// expression may be wanted.
pub open spec fn steps(expr: SpecExpr, need: nat) -> nat {
    if need > strength(expr) {
        (20 - need) as nat
    } else if strength(expr) >= 6 {
        (6 - need) as nat
    } else {
        (strength(expr) - need) as nat
    }
}

/// A token that can start an expression.
pub open spec fn starts_expression(token: SpecToken) -> bool {
    token is Integer || token is Ident || token is True || token is False || token is Bang
        || token is Hyphen || token is Plus || token is LeftParen || token is LeftBracket
}

/// An expression is written with at least one token, the first of which can
/// start an expression.
pub proof fn lemma_spell_starts(expr: SpecExpr, need: nat)
    ensures
        spell(expr, need).len() >= 1,
        starts_expression(spell(expr, need)[0]),
    decreases expr,
{
    if need > strength(expr) {
    } else {
        match expr {
            SpecExpr::Binary { operator, lhs, rhs } => {
                if operator == BinOp::Pow {
                    lemma_spell_starts(*lhs, 6);
                } else {
                    lemma_spell_starts(*lhs, strength(expr));
                }
            },
            SpecExpr::Logical { operator, lhs, rhs } => {
                lemma_spell_starts(*lhs, strength(expr));
            },
            SpecExpr::Relational { operator, lhs, rhs } => {
                lemma_spell_starts(*lhs, strength(expr));
            },
            _ => {},
        }
    }
}

/// Where the operand of an operator of strength `need` is wanted, an
/// expression that is read as an operand a step tighter, and that no
/// operator of that tighter strength follows, is read as the operand.
proof fn lemma_lift(tokens: Seq<SpecToken>, at: int, expr: SpecExpr, need: nat)
    requires
        need <= 4,
        spell(expr, need) == spell(expr, need + 1),
        read_as(tokens, at, expr, need + 1),
        clear(tokens, at + spell(expr, need).len(), need),
        0 <= at,
        at + spell(expr, need).len() <= tokens.len(),
    ensures
        operand(tokens, at, level_at(need)) == Ok::<(SpecExpr, nat), Failure>(
            (expr, spell(expr, need).len()),
        ),
        read_as(tokens, at, expr, need),
{
    let used = spell(expr, need).len();
    let level = level_at(need);
    if need < 4 {
        let tighter = level_at(need + 1);
        assert(level.tighter() == Some(tighter));
        assert(chain_from(tokens, at + used, tighter, expr) == Ok::<(SpecExpr, nat), Failure>(
            (expr, 0),
        ));
        assert(operand(tokens, at, level) == chain(tokens, at, tighter));
    } else {
        assert(level.tighter() is None);
        assert(operand(tokens, at, level) == power(tokens, at));
    }
}

/// An expression written at position `at`, where an operand of strength
/// `need` is wanted and nothing that binds tighter follows, is read as
/// itself.
pub proof fn lemma_read(tokens: Seq<SpecToken>, at: int, expr: SpecExpr, need: nat)
    requires
        need <= 6,
        stands(tokens, at, spell(expr, need)),
        clear(tokens, at + spell(expr, need).len(), need),
    ensures
        read_as(tokens, at, expr, need),
    decreases expr, steps(expr, need), 1nat,
{
    let used = spell(expr, need).len();
    let own = strength(expr);
    lemma_spell_starts(expr, need);
    if need != own && need < 6 {
        // Written the same a step tighter: in parentheses both times, or
        // without both times.
        assert(spell(expr, need) == spell(expr, need + 1));
        lemma_read(tokens, at, expr, need + 1);
        if need == 5 {
            assert(power(tokens, at) == Ok::<(SpecExpr, nat), Failure>((expr, used)));
        } else {
            lemma_lift(tokens, at, expr, need);
        }
    } else if need > own {
        // In parentheses, where a unary expression is wanted.
        let inner = spell(expr, 0);
        lemma_stands_split(
            tokens,
            at,
            seq![SpecToken::LeftParen] + inner,
            seq![SpecToken::RightParen],
        );
        lemma_stands_split(tokens, at, seq![SpecToken::LeftParen], inner);
        assert(tokens[at] == seq![SpecToken::LeftParen][0]);
        assert(tokens[at + 1 + inner.len()] == seq![SpecToken::RightParen][0]);
        lemma_read(tokens, at + 1, expr, 0);
        assert(chain_from(tokens, at + 1 + inner.len(), Level::Or, expr) == Ok::<
            (SpecExpr, nat),
            Failure,
        >((expr, 0)));
        assert(chain(tokens, at + 1, Level::Or) == Ok::<(SpecExpr, nat), Failure>(
            (expr, inner.len()),
        ));
        assert(expect(tokens, at + 1 + inner.len(), SpecToken::RightParen) is Ok);
        assert(used == inner.len() + 2);
    } else {
        match expr {
            SpecExpr::Integer(_) => {
                assert(tokens[at] == spell(expr, need)[0]);
            },
            SpecExpr::Bool(_) => {
                assert(tokens[at] == spell(expr, need)[0]);
            },
            SpecExpr::Ident(_) => {
                assert(tokens[at] == spell(expr, need)[0]);
            },
            SpecExpr::List(items) => {
                let body = spell_items(items, 0);
                assert(spell(expr, need) =~= seq![SpecToken::LeftBracket] + (body + seq![
                    SpecToken::RightBracket,
                ]));
                lemma_stands_split(
                    tokens,
                    at,
                    seq![SpecToken::LeftBracket],
                    body + seq![SpecToken::RightBracket],
                );
                assert(tokens[at] == seq![SpecToken::LeftBracket][0]);
                lemma_read_items(tokens, at + 1, items, 0, Seq::empty());
                assert(Seq::<SpecExpr>::empty() + items.subrange(0, items.len() as int)
                    =~= items);
            },
            SpecExpr::Unary { operator, value } => {
                let rest = spell(*value, own);
                lemma_stands_split(tokens, at, seq![operator.token()], rest);
                assert(tokens[at] == seq![operator.token()][0]);
                lemma_read(tokens, at + 1, *value, own);
            },
            SpecExpr::Binary { operator, lhs, rhs } => {
                if operator == BinOp::Pow {
                    let left_part = spell(*lhs, 6);
                    let right_part = spell(*rhs, 5);
                    lemma_stands_split(tokens, at, left_part + seq![operator.token()], right_part);
                    lemma_stands_split(tokens, at, left_part, seq![operator.token()]);
                    assert(tokens[at + left_part.len()] == seq![operator.token()][0]);
                    lemma_read(tokens, at, *lhs, 6);
                    lemma_read(tokens, at + left_part.len() + 1, *rhs, 5);
                } else {
                    lemma_read_joined(tokens, at, expr, *lhs, operator.token(), *rhs);
                }
            },
            SpecExpr::Logical { operator, lhs, rhs } => {
                lemma_read_joined(tokens, at, expr, *lhs, operator.token(), *rhs);
            },
            SpecExpr::Relational { operator, lhs, rhs } => {
                lemma_read_joined(tokens, at, expr, *lhs, operator.token(), *rhs);
            },
        }
    }
}

/// The case of [`lemma_read`] for an operator that groups to the left, read
/// at its own strength.
proof fn lemma_read_joined(
    tokens: Seq<SpecToken>,
    at: int,
    expr: SpecExpr,
    lhs: SpecExpr,
    operator: SpecToken,
    rhs: SpecExpr,
)
    requires
        strength(expr) <= 4,
        binding(operator) == Some(strength(expr)),
        binary_node(operator, lhs, rhs) == expr,
        spell(expr, strength(expr)) == spell(lhs, strength(expr)) + seq![operator] + spell(
            rhs,
            strength(expr) + 1,
        ),
        decreases_to!(expr => lhs),
        decreases_to!(expr => rhs),
        stands(tokens, at, spell(expr, strength(expr))),
        clear(tokens, at + spell(expr, strength(expr)).len(), strength(expr)),
    ensures
        read_as(tokens, at, expr, strength(expr)),
    decreases expr, 0nat, 0nat,
{
    let own = strength(expr);
    let level = level_at(own);
    let left_part = spell(lhs, own);
    let right_part = spell(rhs, own + 1);
    let used = spell(expr, own).len();
    lemma_stands_split(tokens, at, left_part + seq![operator], right_part);
    lemma_stands_split(tokens, at, left_part, seq![operator]);
    let middle = at + left_part.len();
    assert(tokens[middle] == seq![operator][0]);
    assert(level.has(operator));
    lemma_read(tokens, at, lhs, own);
    lemma_read(tokens, middle + 1, rhs, own + 1);
    if own < 4 {
        assert(spell(rhs, own + 1) == spell(rhs, own + 1));
        assert(level.tighter() == Some(level_at(own + 1)));
        assert(chain_from(tokens, at + used, level_at(own + 1), rhs) == Ok::<
            (SpecExpr, nat),
            Failure,
        >((rhs, 0)));
        assert(operand(tokens, middle + 1, level) == chain(tokens, middle + 1, level_at(own + 1)));
    } else {
        assert(level.tighter() is None);
        assert(operand(tokens, middle + 1, level) == power(tokens, middle + 1));
    }
    assert(operand(tokens, middle + 1, level) == Ok::<(SpecExpr, nat), Failure>(
        (rhs, right_part.len()),
    ));
    assert(chain_from(tokens, middle, level, lhs) == after(
        1 + right_part.len(),
        chain_from(tokens, at + used, level, expr),
    ));
}

/// The elements of a list from the one at `from` on, written at position
/// `at` and followed by the closing bracket, are read as themselves.
pub proof fn lemma_read_items(
    tokens: Seq<SpecToken>,
    at: int,
    items: Seq<SpecExpr>,
    from: int,
    done: Seq<SpecExpr>,
)
    requires
        0 <= from <= items.len(),
        stands(tokens, at, spell_items(items, from) + seq![SpecToken::RightBracket]),
    ensures
        elements(tokens, at, done) == Ok::<(Seq<SpecExpr>, nat), Failure>(
            (
                done + items.subrange(from, items.len() as int),
                spell_items(items, from).len() + 1,
            ),
        ),
    decreases items, 0nat, items.len() - from,
{
    let body = spell_items(items, from);
    lemma_stands_split(tokens, at, body, seq![SpecToken::RightBracket]);
    assert(tokens[at + body.len()] == seq![SpecToken::RightBracket][0]);
    if from == items.len() {
        assert(done + items.subrange(from, items.len() as int) =~= done);
    } else {
        let item = items[from];
        let first = spell(item, 0);
        lemma_spell_starts(item, 0);
        if from + 1 == items.len() {
            assert(tokens[at] == first[0]);
            lemma_read(tokens, at, item, 0);
            assert(chain_from(tokens, at + first.len(), Level::Or, item) == Ok::<
                (SpecExpr, nat),
                Failure,
            >((item, 0)));
            assert(elements(tokens, at + first.len(), done.push(item)) == Ok::<
                (Seq<SpecExpr>, nat),
                Failure,
            >((done.push(item), 1)));
            assert(done + items.subrange(from, items.len() as int) =~= done.push(item));
        } else {
            let rest = spell_items(items, from + 1);
            lemma_stands_split(tokens, at, first + seq![SpecToken::Comma], rest);
            lemma_stands_split(tokens, at, first, seq![SpecToken::Comma]);
            assert(tokens[at] == first[0]);
            assert(tokens[at + first.len()] == seq![SpecToken::Comma][0]);
            lemma_read(tokens, at, item, 0);
            assert(chain_from(tokens, at + first.len(), Level::Or, item) == Ok::<
                (SpecExpr, nat),
                Failure,
            >((item, 0)));
            let tail = rest + seq![SpecToken::RightBracket];
            assert forall|i: int| 0 <= i < tail.len() implies tokens[at + first.len() + 1 + i]
                == #[trigger] tail[i] by {
                let whole = body + seq![SpecToken::RightBracket];
                assert(whole[first.len() + 1 + i] == tail[i]);
            }
            lemma_read_items(tokens, at + first.len() + 1, items, from + 1, done.push(item));
            assert(done.push(item) + items.subrange(from + 1, items.len() as int) =~= done
                + items.subrange(from, items.len() as int));
        }
    }
}

/// Written down and read again, every expression is itself: the parser
/// gives back the tree that was written, whatever its operators and however
/// they nest. So the grammar binds `*` and `/` tighter than `+` and `-`,
/// groups them from left to right, and takes parentheses for what they
/// hold.
pub proof fn lemma_spelling_round_trip(expr: SpecExpr)
    ensures
        expression(spell(expr, 0), 0) == Ok::<(SpecExpr, nat), Failure>(
            (expr, spell(expr, 0).len()),
        ),
        program(spell(expr, 0)) == Ok::<Seq<SpecStmt>, SpecError>(seq![SpecStmt::Expr(expr)]),
{
    let tokens = spell(expr, 0);
    lemma_spell_starts(expr, 0);
    lemma_read(tokens, 0, expr, 0);
    assert(chain_from(tokens, tokens.len() as int, Level::Or, expr) == Ok::<
        (SpecExpr, nat),
        Failure,
    >((expr, 0)));
    assert(statement(tokens, 0) == Ok::<(SpecStmt, nat), Failure>(
        (SpecStmt::Expr(expr), tokens.len()),
    ));
    assert(Seq::<SpecStmt>::empty().push(SpecStmt::Expr(expr)) =~= seq![SpecStmt::Expr(expr)]);
    assert(program_from(tokens, 0, Seq::empty()) == Ok::<(Seq<SpecStmt>, nat), Failure>(
        (seq![SpecStmt::Expr(expr)], tokens.len()),
    ));
}

} // verus!
