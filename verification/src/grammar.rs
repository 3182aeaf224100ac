//! The grammar: which tree a sequence of tokens stands for.
//!
//! Every function here reads `tokens` from a position on and gives either
//! the node it found together with the number of tokens it took, or the
//! error together with the position at which reading stopped.
//!
//! From the loosest to the tightest binding: `||`, `&&`, the comparisons,
//! `+ -`, `* /`, `^`, the unary operators, and at last literals,
//! identifiers, parentheses and list literals. All binary operators but `^`
//! group to the left; `^` groups to the right.

use vstd::prelude::*;
use crate::error::SpecError;
use crate::expr::SpecExpr;
use crate::op::{binary_operator, logical_operator, relational_operator, BinOp, UnOp};
use crate::stmt::SpecStmt;
use crate::token::SpecToken;

verus! {

/// A parse that stopped: the error, and the position of the token at which
/// it stopped.
pub struct Failure {
    pub error: SpecError,
    pub at: int,
}

/// A node together with the number of tokens that spell it, or a failure.
pub type Parsed<T> = Result<(T, nat), Failure>;

/// The distance from position `at` to the end of `tokens`.
pub open spec fn left(tokens: Seq<SpecToken>, at: int) -> nat {
    if at <= tokens.len() {
        (tokens.len() - at) as nat
    } else {
        0
    }
}

/// `parsed`, read after `by` tokens that belong to the same node.
pub open spec fn after<T>(by: nat, parsed: Parsed<T>) -> Parsed<T> {
    match parsed {
        Ok((node, used)) => Ok((node, by + used)),
        Err(failure) => Err(failure),
    }
}

/// The error for a token that cannot stand where it does.
pub open spec fn unexpected(token: Option<SpecToken>) -> SpecError {
    SpecError::SyntaxError { token, message: "unexpected token"@ }
}

/// The failure of reading past the last token. It names the token seen last.
pub open spec fn out_of_tokens(tokens: Seq<SpecToken>, at: int) -> Failure {
    Failure {
        error: unexpected(
            if 0 < at <= tokens.len() {
                Some(tokens[at - 1])
            } else {
                None
            },
        ),
        at,
    }
}

/// The failure of an opening bracket that is the last token.
pub open spec fn unclosed(what: Seq<char>, at: int) -> Failure {
    Failure { error: SpecError::SyntaxError { token: None, message: what }, at }
}

/// The token at position `at`, which must exist.
pub open spec fn current(tokens: Seq<SpecToken>, at: int) -> Result<SpecToken, Failure> {
    if 0 <= at < tokens.len() {
        Ok(tokens[at])
    } else {
        Err(out_of_tokens(tokens, at))
    }
}

/// Whether the token at position `at` exists and is `wanted`.
pub open spec fn is_at(tokens: Seq<SpecToken>, at: int, wanted: SpecToken) -> bool {
    0 <= at < tokens.len() && tokens[at] == wanted
}

/// Takes the token at position `at`, which must be `expected`.
pub open spec fn expect(tokens: Seq<SpecToken>, at: int, expected: SpecToken) -> Parsed<()> {
    match current(tokens, at) {
        Err(failure) => Err(failure),
        Ok(found) => if found == expected {
            Ok(((), 1))
        } else {
            Err(Failure { error: SpecError::ExpectedTokenError { expected, found }, at })
        },
    }
}

/// The levels of binary operators that group to the left, from the loosest
/// binding to the tightest.
pub enum Level {
    Or,
    And,
    Relational,
    Additive,
    Multiplicative,
}

impl Level {
    /// The next tighter level, whose expressions are the operands of this
    /// one. The operands of the tightest level are powers.
    pub open spec fn tighter(self) -> Option<Level> {
        match self {
            Level::Or => Some(Level::And),
            Level::And => Some(Level::Relational),
            Level::Relational => Some(Level::Additive),
            Level::Additive => Some(Level::Multiplicative),
            Level::Multiplicative => None,
        }
    }

    /// The place of the level among the levels, the tightest first.
    pub open spec fn rank(self) -> nat {
        match self {
            Level::Or => 4,
            Level::And => 3,
            Level::Relational => 2,
            Level::Additive => 1,
            Level::Multiplicative => 0,
        }
    }

    /// Whether `token` is an operator of this level.
    pub open spec fn has(self, token: SpecToken) -> bool {
        match self {
            Level::Or => token is Or,
            Level::And => token is And,
            Level::Relational => relational_operator(token) is Some,
            Level::Additive => token is Plus || token is Hyphen,
            Level::Multiplicative => token is Star || token is Divide,
        }
    }
}

/// The node of a binary operator token and its two operands.
pub open spec fn binary_node(operator: SpecToken, lhs: SpecExpr, rhs: SpecExpr) -> SpecExpr {
    if let Some(op) = logical_operator(operator) {
        SpecExpr::Logical { operator: op, lhs: Box::new(lhs), rhs: Box::new(rhs) }
    } else if let Some(op) = relational_operator(operator) {
        SpecExpr::Relational { operator: op, lhs: Box::new(lhs), rhs: Box::new(rhs) }
    } else if let Some(op) = binary_operator(operator) {
        SpecExpr::Binary { operator: op, lhs: Box::new(lhs), rhs: Box::new(rhs) }
    } else {
        lhs
    }
}

/// The node of a unary operator and its operand.
pub open spec fn unary_node(operator: UnOp, operand: SpecExpr) -> SpecExpr {
    SpecExpr::Unary { operator, value: Box::new(operand) }
}

/// A literal, an identifier, an expression in parentheses, a list literal,
/// or a unary operator with its operand. The operand of `!` is again of this
/// kind; the operand of `+` and `-` is a power, so that `-3 ^ 2` is
/// `-(3 ^ 2)`.
pub open spec fn unary(tokens: Seq<SpecToken>, at: int) -> Parsed<SpecExpr>
    decreases left(tokens, at), 0nat,
{
    match current(tokens, at) {
        Err(failure) => Err(failure),
        Ok(token) => match token {
            SpecToken::Integer(value) => Ok((SpecExpr::Integer(value), 1)),
            SpecToken::Ident(name) => Ok((SpecExpr::Ident(name), 1)),
            SpecToken::True => Ok((SpecExpr::Bool(true), 1)),
            SpecToken::False => Ok((SpecExpr::Bool(false), 1)),
            SpecToken::Bang => match unary(tokens, at + 1) {
                Err(failure) => Err(failure),
                Ok((operand, used)) => Ok((unary_node(UnOp::Negate, operand), 1 + used)),
            },
            SpecToken::Hyphen => match power(tokens, at + 1) {
                Err(failure) => Err(failure),
                Ok((operand, used)) => Ok((unary_node(UnOp::Minus, operand), 1 + used)),
            },
            SpecToken::Plus => match power(tokens, at + 1) {
                Err(failure) => Err(failure),
                Ok((operand, used)) => Ok((unary_node(UnOp::Plus, operand), 1 + used)),
            },
            SpecToken::LeftParen => if at + 1 >= tokens.len() {
                Err(unclosed("expected right parenthesis"@, at + 1))
            } else {
                match chain(tokens, at + 1, Level::Or) {
                    Err(failure) => Err(failure),
                    Ok((inner, used)) => match expect(
                        tokens,
                        at + 1 + used,
                        SpecToken::RightParen,
                    ) {
                        Err(failure) => Err(failure),
                        Ok(_) => Ok((inner, used + 2)),
                    },
                }
            },
            SpecToken::LeftBracket => if at + 1 >= tokens.len() {
                Err(unclosed("expected right bracket"@, at + 1))
            } else {
                match elements(tokens, at + 1, Seq::empty()) {
                    Err(failure) => Err(failure),
                    Ok((items, used)) => Ok((SpecExpr::List(items), 1 + used)),
                }
            },
            _ => Err(Failure { error: unexpected(Some(token)), at }),
        },
    }
}

/// The rest of a list literal from position `at` on, through its closing
/// bracket, after the elements `items`. Commas may stand anywhere between
/// the brackets, in any number.
///
/// The test that an element took a token is there for the recursion alone:
/// an expression never takes none (`grammar_laws::lemma_chain`).
pub open spec fn elements(tokens: Seq<SpecToken>, at: int, items: Seq<SpecExpr>) -> Parsed<
    Seq<SpecExpr>,
>
    decreases left(tokens, at), 12nat,
{
    match current(tokens, at) {
        Err(failure) => Err(failure),
        Ok(token) => match token {
            SpecToken::Comma => after(1, elements(tokens, at + 1, items)),
            SpecToken::RightBracket => Ok((items, 1)),
            _ => match chain(tokens, at, Level::Or) {
                Err(failure) => Err(failure),
                Ok((item, used)) => if used == 0 {
                    Err(Failure { error: unexpected(Some(token)), at })
                } else {
                    after(used, elements(tokens, at + used, items.push(item)))
                },
            },
        },
    }
}

/// A unary expression, or one raised to a power. The exponent is itself a
/// power: `^` groups to the right.
pub open spec fn power(tokens: Seq<SpecToken>, at: int) -> Parsed<SpecExpr>
    decreases left(tokens, at), 1nat,
{
    match unary(tokens, at) {
        Err(failure) => Err(failure),
        Ok((base, used)) => if is_at(tokens, at + used, SpecToken::Caret) {
            match power(tokens, at + used + 1) {
                Err(failure) => Err(failure),
                Ok((exponent, more)) => Ok(
                    (
                        SpecExpr::Binary {
                            operator: BinOp::Pow,
                            lhs: Box::new(base),
                            rhs: Box::new(exponent),
                        },
                        used + 1 + more,
                    ),
                ),
            }
        } else {
            Ok((base, used))
        },
    }
}

/// An operand of the operators of `level`: an expression of the next tighter
/// level.
pub open spec fn operand(tokens: Seq<SpecToken>, at: int, level: Level) -> Parsed<SpecExpr>
    decreases left(tokens, at), 2 + 2 * level.rank(),
{
    match level.tighter() {
        Some(tighter) => chain(tokens, at, tighter),
        None => power(tokens, at),
    }
}

/// An expression of `level`: operands joined by operators of the level,
/// grouped to the left.
pub open spec fn chain(tokens: Seq<SpecToken>, at: int, level: Level) -> Parsed<SpecExpr>
    decreases left(tokens, at), 3 + 2 * level.rank(),
{
    match operand(tokens, at, level) {
        Err(failure) => Err(failure),
        Ok((first, used)) => after(used, chain_from(tokens, at + used, level, first)),
    }
}

/// The rest of an expression of `level` from position `at` on, after the
/// operands and operators that make up `lhs`.
pub open spec fn chain_from(tokens: Seq<SpecToken>, at: int, level: Level, lhs: SpecExpr) -> Parsed<
    SpecExpr,
>
    decreases left(tokens, at), 0nat,
{
    if 0 <= at < tokens.len() && level.has(tokens[at]) {
        match operand(tokens, at + 1, level) {
            Err(failure) => Err(failure),
            Ok((rhs, used)) => after(
                1 + used,
                chain_from(tokens, at + 1 + used, level, binary_node(tokens[at], lhs, rhs)),
            ),
        }
    } else {
        Ok((lhs, 0))
    }
}

/// An expression.
pub open spec fn expression(tokens: Seq<SpecToken>, at: int) -> Parsed<SpecExpr> {
    chain(tokens, at, Level::Or)
}

/// A statement: an `if` with its test, its branch and perhaps an `else`
/// branch; a `let` with its identifier and its initializer; a block of one
/// or more statements between braces, separated by semicolons; or an
/// expression.
pub open spec fn statement(tokens: Seq<SpecToken>, at: int) -> Parsed<SpecStmt>
    decreases left(tokens, at), 13nat,
{
    match current(tokens, at) {
        Err(failure) => Err(failure),
        Ok(token) => match token {
            SpecToken::If => match chain(tokens, at + 1, Level::Or) {
                Err(failure) => Err(failure),
                Ok((test, used)) => match statement(tokens, at + 1 + used) {
                    Err(failure) => Err(failure),
                    Ok((branch, more)) => {
                        let next = at + 1 + used + more;
                        if is_at(tokens, next, SpecToken::Else) {
                            match statement(tokens, next + 1) {
                                Err(failure) => Err(failure),
                                Ok((other, last)) => Ok(
                                    (
                                        SpecStmt::If {
                                            test,
                                            branch: Box::new(branch),
                                            else_branch: Some(Box::new(other)),
                                        },
                                        1 + used + more + 1 + last,
                                    ),
                                ),
                            }
                        } else {
                            Ok(
                                (
                                    SpecStmt::If {
                                        test,
                                        branch: Box::new(branch),
                                        else_branch: None,
                                    },
                                    1 + used + more,
                                ),
                            )
                        }
                    },
                },
            },
            SpecToken::Let => match current(tokens, at + 1) {
                Err(failure) => Err(failure),
                Ok(SpecToken::Ident(ident)) => match expect(tokens, at + 2, SpecToken::Equal) {
                    Err(failure) => Err(failure),
                    Ok(_) => match chain(tokens, at + 3, Level::Or) {
                        Err(failure) => Err(failure),
                        Ok((expr, used)) => Ok((SpecStmt::Let { ident, expr }, 3 + used)),
                    },
                },
                Ok(_) => Err(unclosed("expected identifier"@, at + 1)),
            },
            SpecToken::LeftBrace => if at + 1 >= tokens.len() {
                Err(unclosed("expected right brace"@, at + 1))
            } else {
                match statement(tokens, at + 1) {
                    Err(failure) => Err(failure),
                    Ok((first, used)) => match block_from(tokens, at + 1 + used, seq![first]) {
                        Err(failure) => Err(failure),
                        Ok((stmts, more)) => Ok((SpecStmt::Block(stmts), 1 + used + more)),
                    },
                }
            },
            _ => match chain(tokens, at, Level::Or) {
                Err(failure) => Err(failure),
                Ok((expr, used)) => Ok((SpecStmt::Expr(expr), used)),
            },
        },
    }
}

/// The rest of a block from position `at` on, through its closing brace,
/// after the statements `stmts`.
pub open spec fn block_from(tokens: Seq<SpecToken>, at: int, stmts: Seq<SpecStmt>) -> Parsed<
    Seq<SpecStmt>,
>
    decreases left(tokens, at), 14nat,
{
    if is_at(tokens, at, SpecToken::Semicolon) {
        match statement(tokens, at + 1) {
            Err(failure) => Err(failure),
            Ok((next, used)) => after(
                1 + used,
                block_from(tokens, at + 1 + used, stmts.push(next)),
            ),
        }
    } else {
        match expect(tokens, at, SpecToken::RightBrace) {
            Err(failure) => Err(failure),
            Ok(_) => Ok((stmts, 1)),
        }
    }
}

/// The error for tokens that follow a complete program.
pub open spec fn trailing_tokens() -> SpecError {
    SpecError::InvalidExpressionError { message: "tokens remaining after parsing"@ }
}

/// The rest of a program from position `at` on, after the statements
/// `stmts`: statements separated by semicolons, up to the last token. A
/// semicolon may end the program. A statement that is followed by anything
/// but a semicolon must be the last.
pub open spec fn program_from(tokens: Seq<SpecToken>, at: int, stmts: Seq<SpecStmt>) -> Parsed<
    Seq<SpecStmt>,
>
    decreases left(tokens, at),
{
    if at < 0 || at >= tokens.len() {
        Ok((stmts, 0))
    } else {
        match statement(tokens, at) {
            Err(failure) => Err(failure),
            Ok((next, used)) => if is_at(tokens, at + used, SpecToken::Semicolon) {
                after(used + 1, program_from(tokens, at + used + 1, stmts.push(next)))
            } else if at + used < tokens.len() {
                Err(Failure { error: trailing_tokens(), at: at + used })
            } else {
                Ok((stmts.push(next), used))
            },
        }
    }
}

/// The statements that `tokens` spell, or the first error.
pub open spec fn program(tokens: Seq<SpecToken>) -> Result<Seq<SpecStmt>, SpecError> {
    match program_from(tokens, 0, Seq::empty()) {
        Ok((stmts, _)) => Ok(stmts),
        Err(failure) => Err(failure.error),
    }
}

} // verus!
