//! What holds of the grammar on every sequence of tokens.

use vstd::prelude::*;
use crate::expr::SpecExpr;
use crate::grammar::{
    binary_node, block_from, chain, chain_from, elements, left, operand, power, program,
    program_from, statement, unary, Level, Parsed,
};
use crate::stmt::SpecStmt;
use crate::token::SpecToken;

verus! {

impl SpecToken {
    /// A token that can be the last of an expression: a literal, an
    /// identifier, or a closing parenthesis or bracket.
    pub open spec fn ends_expression(self) -> bool {
        self is Integer || self is Ident || self is True || self is False || self is RightParen
            || self is RightBracket
    }

    /// A token that can be the last of a statement: one that can end an
    /// expression, or a closing brace.
    pub open spec fn ends_statement(self) -> bool {
        self.ends_expression() || self is RightBrace
    }
}

/// What holds of every node that the grammar reads from position `at`: it
/// takes at least one token, it ends within the tokens, and its last token
/// is one of the `closing` ones. A failure is a syntactic error at a
/// position from `at` to the end.
pub open spec fn well_read<T>(
    tokens: Seq<SpecToken>,
    at: int,
    parsed: Parsed<T>,
    closing: spec_fn(SpecToken) -> bool,
) -> bool {
    match parsed {
        Ok((_, used)) => {
            &&& 1 <= used
            &&& at + used <= tokens.len()
            &&& closing(tokens[at + used - 1])
        },
        Err(failure) => {
            &&& failure.error.is_syntactic()
            &&& at <= failure.at <= tokens.len()
        },
    }
}

/// The same for the rest of a node, which may be empty.
pub open spec fn well_continued<T>(
    tokens: Seq<SpecToken>,
    at: int,
    parsed: Parsed<T>,
    closing: spec_fn(SpecToken) -> bool,
) -> bool {
    match parsed {
        Ok((_, used)) => {
            &&& at + used <= tokens.len()
            &&& used >= 1 ==> closing(tokens[at + used - 1])
        },
        Err(failure) => {
            &&& failure.error.is_syntactic()
            &&& at <= failure.at <= tokens.len()
        },
    }
}

/// The tokens that can end an expression.
pub open spec fn expression_end() -> spec_fn(SpecToken) -> bool {
    |token: SpecToken| token.ends_expression()
}

/// The tokens that can end a statement.
pub open spec fn statement_end() -> spec_fn(SpecToken) -> bool {
    |token: SpecToken| token.ends_statement()
}

/// The token that ends a list or a block.
pub open spec fn only(wanted: SpecToken) -> spec_fn(SpecToken) -> bool {
    |token: SpecToken| token == wanted
}

/// A unary expression is well read.
pub proof fn lemma_unary(tokens: Seq<SpecToken>, at: int)
    requires
        0 <= at <= tokens.len(),
    ensures
        well_read(tokens, at, unary(tokens, at), expression_end()),
    decreases left(tokens, at), 0nat,
{
    if at < tokens.len() {
        match tokens[at] {
            SpecToken::Bang => {
                lemma_unary(tokens, at + 1);
            },
            SpecToken::Hyphen => {
                lemma_power(tokens, at + 1);
            },
            SpecToken::Plus => {
                lemma_power(tokens, at + 1);
            },
            SpecToken::LeftParen => {
                if at + 1 < tokens.len() {
                    lemma_chain(tokens, at + 1, Level::Or);
                }
            },
            SpecToken::LeftBracket => {
                if at + 1 < tokens.len() {
                    lemma_elements(tokens, at + 1, Seq::empty());
                }
            },
            _ => {},
        }
    }
}

/// The rest of a list literal is well read and ends with the closing
/// bracket.
pub proof fn lemma_elements(tokens: Seq<SpecToken>, at: int, items: Seq<SpecExpr>)
    requires
        0 <= at <= tokens.len(),
    ensures
        well_read(tokens, at, elements(tokens, at, items), only(SpecToken::RightBracket)),
    decreases left(tokens, at), 12nat,
{
    if at < tokens.len() {
        match tokens[at] {
            SpecToken::Comma => {
                lemma_elements(tokens, at + 1, items);
            },
            SpecToken::RightBracket => {},
            _ => {
                lemma_chain(tokens, at, Level::Or);
                if let Ok((item, used)) = chain(tokens, at, Level::Or) {
                    lemma_elements(tokens, at + used, items.push(item));
                }
            },
        }
    }
}

/// A power is well read.
pub proof fn lemma_power(tokens: Seq<SpecToken>, at: int)
    requires
        0 <= at <= tokens.len(),
    ensures
        well_read(tokens, at, power(tokens, at), expression_end()),
    decreases left(tokens, at), 1nat,
{
    lemma_unary(tokens, at);
    if let Ok((base, used)) = unary(tokens, at) {
        if at + used < tokens.len() {
            lemma_power(tokens, at + used + 1);
        }
    }
}

/// An operand is well read.
pub proof fn lemma_operand(tokens: Seq<SpecToken>, at: int, level: Level)
    requires
        0 <= at <= tokens.len(),
    ensures
        well_read(tokens, at, operand(tokens, at, level), expression_end()),
    decreases left(tokens, at), 2 + 2 * level.rank(),
{
    match level.tighter() {
        Some(tighter) => lemma_chain(tokens, at, tighter),
        None => lemma_power(tokens, at),
    }
}

/// An expression of any level is well read.
pub proof fn lemma_chain(tokens: Seq<SpecToken>, at: int, level: Level)
    requires
        0 <= at <= tokens.len(),
    ensures
        well_read(tokens, at, chain(tokens, at, level), expression_end()),
    decreases left(tokens, at), 3 + 2 * level.rank(),
{
    lemma_operand(tokens, at, level);
    if let Ok((first, used)) = operand(tokens, at, level) {
        lemma_chain_from(tokens, at + used, level, first);
    }
}

/// The rest of an expression of any level is well read.
pub proof fn lemma_chain_from(tokens: Seq<SpecToken>, at: int, level: Level, lhs: SpecExpr)
    requires
        0 <= at <= tokens.len(),
    ensures
        well_continued(tokens, at, chain_from(tokens, at, level, lhs), expression_end()),
    decreases left(tokens, at), 0nat,
{
    if at < tokens.len() && level.has(tokens[at]) {
        lemma_operand(tokens, at + 1, level);
        if let Ok((rhs, used)) = operand(tokens, at + 1, level) {
            lemma_chain_from(
                tokens,
                at + 1 + used,
                level,
                binary_node(tokens[at], lhs, rhs),
            );
        }
    }
}

/// A statement is well read.
pub proof fn lemma_statement(tokens: Seq<SpecToken>, at: int)
    requires
        0 <= at <= tokens.len(),
    ensures
        well_read(tokens, at, statement(tokens, at), statement_end()),
    decreases left(tokens, at), 13nat,
{
    if at < tokens.len() {
        match tokens[at] {
            SpecToken::If => {
                lemma_chain(tokens, at + 1, Level::Or);
                if let Ok((test, used)) = chain(tokens, at + 1, Level::Or) {
                    lemma_statement(tokens, at + 1 + used);
                    if let Ok((branch, more)) = statement(tokens, at + 1 + used) {
                        if at + 1 + used + more < tokens.len() {
                            lemma_statement(tokens, at + 1 + used + more + 1);
                        }
                    }
                }
            },
            SpecToken::Let => {
                if at + 3 <= tokens.len() {
                    lemma_chain(tokens, at + 3, Level::Or);
                }
            },
            SpecToken::LeftBrace => {
                if at + 1 < tokens.len() {
                    lemma_statement(tokens, at + 1);
                    if let Ok((first, used)) = statement(tokens, at + 1) {
                        lemma_block_from(tokens, at + 1 + used, seq![first]);
                    }
                }
            },
            _ => {
                lemma_chain(tokens, at, Level::Or);
            },
        }
    }
}

/// The rest of a block is well read and ends with the closing brace.
pub proof fn lemma_block_from(tokens: Seq<SpecToken>, at: int, stmts: Seq<SpecStmt>)
    requires
        0 <= at <= tokens.len(),
    ensures
        well_read(tokens, at, block_from(tokens, at, stmts), only(SpecToken::RightBrace)),
    decreases left(tokens, at), 14nat,
{
    if at < tokens.len() && tokens[at] == SpecToken::Semicolon {
        lemma_statement(tokens, at + 1);
        if let Ok((next, used)) = statement(tokens, at + 1) {
            lemma_block_from(tokens, at + 1 + used, stmts.push(next));
        }
    }
}

/// A program that parses takes every token, and its last token is one that
/// can end a statement, or a semicolon. A program that does not parse fails
/// with a syntactic error.
pub proof fn lemma_program_from(tokens: Seq<SpecToken>, at: int, stmts: Seq<SpecStmt>)
    requires
        0 <= at <= tokens.len(),
    ensures
        match program_from(tokens, at, stmts) {
            Ok((_, used)) => {
                &&& at + used == tokens.len()
                &&& used >= 1 ==> tokens.last().ends_statement() || tokens.last()
                    == SpecToken::Semicolon
            },
            Err(failure) => {
                &&& failure.error.is_syntactic()
                &&& at <= failure.at <= tokens.len()
            },
        },
    decreases left(tokens, at),
{
    if at < tokens.len() {
        lemma_statement(tokens, at);
        if let Ok((next, used)) = statement(tokens, at) {
            if at + used < tokens.len() && tokens[at + used] == SpecToken::Semicolon {
                lemma_program_from(tokens, at + used + 1, stmts.push(next));
            }
        }
    }
}

/// Whatever the tokens, the parser gives statements or a syntactic error.
pub proof fn lemma_parse_errors_are_syntactic(tokens: Seq<SpecToken>)
    ensures
        program(tokens) matches Err(error) ==> error.is_syntactic(),
{
    lemma_program_from(tokens, 0, Seq::empty());
}

/// Tokens whose last is neither a semicolon nor a token that can end a
/// statement are no program: an operator, an opening bracket, a comma or a
/// keyword other than `true` and `false` left dangling at the end always
/// gives a syntactic error.
pub proof fn lemma_dangling_token_is_an_error(tokens: Seq<SpecToken>)
    requires
        tokens.len() > 0,
        !tokens.last().ends_statement(),
        tokens.last() != SpecToken::Semicolon,
    ensures
        program(tokens) matches Err(error) && error.is_syntactic(),
{
    lemma_program_from(tokens, 0, Seq::empty());
}

} // verus!
