//! How an expression is written down: its tokens, with parentheses only
//! where the binding strength of the operators and their grouping demand
//! them.

use vstd::prelude::*;
use crate::expr::SpecExpr;
use crate::op::{BinOp, LogOp, UnOp};
use crate::text::{is_letter, is_word_char};
use crate::token::{keyword, SpecToken};

verus! {

/// How tightly the outermost operator of an expression binds, from `||`
/// (zero) up. A unary minus or plus binds like `^`, because its operand is a
/// power; a literal, an identifier or a list is tighter than any operator.
pub open spec fn strength(expr: SpecExpr) -> nat {
    match expr {
        SpecExpr::Logical { operator, .. } => match operator {
            LogOp::Or => 0,
            LogOp::And => 1,
        },
        SpecExpr::Relational { .. } => 2,
        SpecExpr::Binary { operator, .. } => match operator {
            BinOp::Add => 3,
            BinOp::Sub => 3,
            BinOp::Mul => 4,
            BinOp::Div => 4,
            BinOp::Pow => 5,
        },
        SpecExpr::Unary { operator, .. } => match operator {
            UnOp::Plus => 5,
            UnOp::Minus => 5,
            UnOp::Negate => 6,
        },
        _ => 7,
    }
}

/// The tokens of `expr` where an operand of strength `need` or more is
/// wanted: `expr` as it stands if it binds that tightly, else `expr` in
/// parentheses.
///
/// The left operand of an operator that groups to the left is written at
/// the operator's own strength and the right one a step tighter; for `^`,
/// which groups to the right, it is the other way round. The elements of a
/// list are separated by single commas.
pub open spec fn spell(expr: SpecExpr, need: nat) -> Seq<SpecToken>
    decreases expr, (if need > strength(expr) { 1nat } else { 0nat }), 0nat,
{
    if need > strength(expr) {
        seq![SpecToken::LeftParen] + spell(expr, 0) + seq![SpecToken::RightParen]
    } else {
        match expr {
            SpecExpr::Integer(value) => seq![SpecToken::Integer(value)],
            SpecExpr::Bool(value) => seq![
                if value {
                    SpecToken::True
                } else {
                    SpecToken::False
                },
            ],
            SpecExpr::Ident(name) => seq![SpecToken::Ident(name)],
            SpecExpr::Unary { operator, value } => seq![operator.token()] + spell(
                *value,
                strength(expr),
            ),
            SpecExpr::Binary { operator, lhs, rhs } => if operator == BinOp::Pow {
                spell(*lhs, 6) + seq![operator.token()] + spell(*rhs, 5)
            } else {
                spell(*lhs, strength(expr)) + seq![operator.token()] + spell(
                    *rhs,
                    strength(expr) + 1,
                )
            },
            SpecExpr::Logical { operator, lhs, rhs } => spell(*lhs, strength(expr)) + seq![
                operator.token(),
            ] + spell(*rhs, strength(expr) + 1),
            SpecExpr::Relational { operator, lhs, rhs } => spell(*lhs, strength(expr)) + seq![
                operator.token(),
            ] + spell(*rhs, strength(expr) + 1),
            SpecExpr::List(items) => seq![SpecToken::LeftBracket] + spell_items(items, 0) + seq![
                SpecToken::RightBracket,
            ],
        }
    }
}

/// The tokens of the elements of a list from the one at `from` on, with a
/// comma between each two.
pub open spec fn spell_items(items: Seq<SpecExpr>, from: int) -> Seq<SpecToken>
    decreases items, 0nat, items.len() - from,
{
    if from < 0 || from >= items.len() {
        Seq::empty()
    } else if from + 1 == items.len() {
        spell(items[from], 0)
    } else {
        spell(items[from], 0) + seq![SpecToken::Comma] + spell_items(items, from + 1)
    }
}

/// Whether `name` is a word: a letter followed by word characters.
pub open spec fn is_word(name: Seq<char>) -> bool {
    &&& name.len() >= 1
    &&& is_letter(name[0])
    &&& forall|i: int| 1 <= i < name.len() ==> is_word_char(#[trigger] name[i])
}

impl SpecToken {
    /// Whether the token can come out of the lexer: an integer literal is
    /// not negative, and an identifier is a word other than the keywords.
    pub open spec fn is_readable(self) -> bool {
        match self {
            SpecToken::Integer(value) => value >= 0,
            SpecToken::Ident(name) => is_word(name) && keyword(name) is None,
            _ => true,
        }
    }
}

/// The text of a sequence of tokens: the spelling of each, followed by a
/// space.
pub open spec fn written(tokens: Seq<SpecToken>) -> Seq<char>
    decreases tokens.len(),
{
    if tokens.len() == 0 {
        Seq::empty()
    } else {
        tokens[0].spelling() + seq![' '] + written(tokens.drop_first())
    }
}

/// Whether an expression can be written as text: its integer literals are
/// not negative, and its identifiers are words other than the keywords.
pub open spec fn is_writable(expr: SpecExpr) -> bool
    decreases expr,
{
    match expr {
        SpecExpr::Integer(value) => value >= 0,
        SpecExpr::Bool(_) => true,
        SpecExpr::Ident(name) => is_word(name) && keyword(name) is None,
        SpecExpr::Unary { operator, value } => is_writable(*value),
        SpecExpr::Binary { operator, lhs, rhs } => is_writable(*lhs) && is_writable(*rhs),
        SpecExpr::Logical { operator, lhs, rhs } => is_writable(*lhs) && is_writable(*rhs),
        SpecExpr::Relational { operator, lhs, rhs } => is_writable(*lhs) && is_writable(*rhs),
        SpecExpr::List(items) => forall|i: int|
            0 <= i < items.len() ==> is_writable(#[trigger] items[i]),
    }
}

} // verus!
