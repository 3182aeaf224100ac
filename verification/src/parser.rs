//! The parser: from tokens to statements, by recursive descent.

use vstd::prelude::*;
use std::rc::Rc;
use crate::error::{IntyError, SpecError};
use crate::expr::{view_exprs, Expr, SpecExpr};
use crate::grammar::{
    after, block_from, chain, chain_from, current, elements, expect, operand, power, program,
    program_from, statement, trailing_tokens, unary, Failure, Level, Parsed,
};
use crate::grammar_laws::lemma_program_from;
use crate::op::{BinOp, LogOp, RelOp, UnOp};
use crate::stmt::{view_stmts, SpecStmt, Stmt};
use crate::token::{view_tokens, SpecToken, Token};

verus! {

/// The model of the result of parsing an expression.
pub open spec fn view_expr_result(outcome: Result<Expr, IntyError>) -> Result<SpecExpr, SpecError> {
    match outcome {
        Ok(expr) => Ok(expr@),
        Err(error) => Err(error@),
    }
}

/// The model of the result of parsing a statement.
pub open spec fn view_parsed_stmt(outcome: Result<Stmt, IntyError>) -> Result<SpecStmt, SpecError> {
    match outcome {
        Ok(stmt) => Ok(stmt@),
        Err(error) => Err(error@),
    }
}

/// The model of the result of parsing a program.
pub open spec fn view_parse_result(outcome: Result<Vec<Stmt>, IntyError>) -> Result<
    Seq<SpecStmt>,
    SpecError,
> {
    match outcome {
        Ok(stmts) => Ok(view_stmts(stmts@)),
        Err(error) => Err(error@),
    }
}

/// The model of the result of taking one token.
pub open spec fn view_taken(outcome: Result<Token, IntyError>) -> Result<(), SpecError> {
    match outcome {
        Ok(_) => Ok(()),
        Err(error) => Err(error@),
    }
}

/// A cursor over a sequence of tokens.
pub struct Parser<'a> {
    pub tokens: &'a [Token],
    pub position: usize,
}

/// Whether a parser that stood as `before` and now stands as `now` has done
/// what `parsed` prescribes, with the result `outcome`: on success it has
/// moved past the tokens of the node, on failure it stands where reading
/// stopped.
pub open spec fn follows<T>(
    before: Parser,
    now: Parser,
    parsed: Parsed<T>,
    outcome: Result<T, SpecError>,
) -> bool {
    &&& now.tokens@ == before.tokens@
    &&& match parsed {
        Ok((node, used)) => outcome == Ok::<T, SpecError>(node) && now.position
            == before.position + used,
        Err(failure) => outcome == Err::<T, SpecError>(failure.error) && now.position
            == failure.at,
    }
}

impl<'a> Parser<'a> {
    /// The models of the parser's tokens.
    pub open spec fn input(&self) -> Seq<SpecToken> {
        view_tokens(self.tokens@)
    }

    /// A parser at the first of `tokens`.
    pub fn new(tokens: &'a [Token]) -> (parser: Self)
        ensures
            parser.tokens@ == tokens@,
            parser.position == 0,
    {
        Parser { tokens, position: 0 }
    }

    /// Are there still tokens remaining?
    fn has_more_tokens(&self) -> (more: bool)
        ensures
            more == (self.position < self.tokens@.len()),
    {
        self.position < self.tokens.len()
    }

    /// The current token, if there is one.
    fn peek(&self) -> (token: Option<&Token>)
        ensures
            match token {
                Some(found) => self.position < self.tokens@.len() && *found
                    == self.tokens@[self.position as int],
                None => self.position >= self.tokens@.len(),
            },
    {
        if !self.has_more_tokens() {
            None
        } else {
            Some(&self.tokens[self.position])
        }
    }

    /// Moves on to the next token.
    fn advance(&mut self)
        requires
            old(self).position < old(self).tokens@.len(),
        ensures
            final(self).tokens@ == old(self).tokens@,
            final(self).position == old(self).position + 1,
    {
        let length = self.tokens.len();
        assert(self.position < length);
        self.position += 1;
    }

    /// A copy of the current token. Past the last token this is an error
    /// that names the token seen last.
    fn clone_current(&self) -> (outcome: Result<Token, IntyError>)
        ensures
            match current(self.input(), self.position as int) {
                Ok(token) => outcome is Ok && outcome->Ok_0@ == token,
                Err(failure) => outcome is Err && outcome->Err_0@ == failure.error,
            },
    {
        if !self.has_more_tokens() {
            let seen = if 0 < self.position && self.position <= self.tokens.len() {
                Some(self.tokens[self.position - 1].clone())
            } else {
                None
            };
            return Err(
                IntyError::SyntaxError { token: seen, message: "unexpected token".to_owned() },
            );
        }
        Ok(self.tokens[self.position].clone())
    }

    /// Takes the current token if it is `expected`; anything else is an
    /// error.
    fn consume(&mut self, expected: Token) -> (outcome: Result<Token, IntyError>)
        ensures
            follows(
                *old(self),
                *final(self),
                expect(old(self).input(), old(self).position as int, expected@),
                view_taken(outcome),
            ),
            outcome matches Ok(found) ==> found@ == expected@,
    {
        let found = match self.clone_current() {
            Ok(found) => found,
            Err(error) => {
                return Err(error);
            },
        };
        if expected.same(&found) {
            self.advance();
            return Ok(found);
        }
        Err(IntyError::ExpectedTokenError { expected, found })
    }

    /// Parses all the tokens from the current one on into the statements of
    /// a program. On success no token is left; on failure the parser stands
    /// at the token at which it gave up.
    pub fn parse(&mut self) -> (outcome: Result<Vec<Stmt>, IntyError>)
        ensures
            follows(
                *old(self),
                *final(self),
                program_from(old(self).input(), old(self).position as int, Seq::empty()),
                view_parse_result(outcome),
            ),
            old(self).position == 0 ==> view_parse_result(outcome) == program(old(self).input()),
            outcome matches Err(error) ==> error@.is_syntactic(),
    {
        let ghost tokens = self.input();
        let ghost start = self.position as int;
        let mut statements: Vec<Stmt> = Vec::new();
        assert(view_stmts(statements@) =~= Seq::empty());
        while self.has_more_tokens()
            invariant_except_break
                program_from(tokens, start, Seq::empty()) == after(
                    (self.position - start) as nat,
                    program_from(tokens, self.position as int, view_stmts(statements@)),
                ),
            invariant
                self.tokens@ == old(self).tokens@,
                tokens == self.input(),
                start == old(self).position,
                start <= self.position,
            ensures
                self.position >= self.tokens@.len() ==> program_from(tokens, start, Seq::empty())
                    == Ok::<(Seq<SpecStmt>, nat), Failure>(
                    (view_stmts(statements@), (self.position - start) as nat),
                ),
                self.position < self.tokens@.len() ==> program_from(tokens, start, Seq::empty())
                    == Err::<(Seq<SpecStmt>, nat), Failure>(
                    Failure { error: trailing_tokens(), at: self.position as int },
                ),
            decreases self.tokens@.len() - self.position,
        {
            let ghost before = view_stmts(statements@);
            let ghost earlier = statements@;
            let statement = match self.parse_stmt() {
                Ok(statement) => statement,
                Err(error) => {
                    proof {
                        lemma_program_from(tokens, start, Seq::empty());
                    }
                    return Err(error);
                },
            };
            statements.push(statement);
            assert(view_stmts(statements@) =~= before.push(statement@)) by {
                assert(statements@.drop_last() =~= earlier);
            }
            let separated = match self.peek() {
                Some(Token::Semicolon) => true,
                _ => false,
            };
            if separated {
                self.advance();
            } else {
                break ;
            }
        }
        if self.has_more_tokens() {
            return Err(
                IntyError::InvalidExpressionError {
                    message: "tokens remaining after parsing".to_owned(),
                },
            );
        }
        Ok(statements)
    }

    /// Parses a single statement.
    fn parse_stmt(&mut self) -> (outcome: Result<Stmt, IntyError>)
        requires
            old(self).position <= old(self).tokens@.len(),
        ensures
            follows(
                *old(self),
                *final(self),
                statement(old(self).input(), old(self).position as int),
                view_parsed_stmt(outcome),
            ),
            outcome is Ok ==> old(self).position < final(self).position,
            outcome is Ok ==> final(self).position <= final(self).tokens@.len(),
        decreases old(self).tokens@.len() - old(self).position, 13nat,
    {
        let token = match self.clone_current() {
            Ok(token) => token,
            Err(error) => {
                return Err(error);
            },
        };
        match token {
            Token::If => {
                self.advance();
                let test = match self.parse_or() {
                    Ok(test) => test,
                    Err(error) => {
                        return Err(error);
                    },
                };
                let branch = match self.parse_stmt() {
                    Ok(branch) => branch,
                    Err(error) => {
                        return Err(error);
                    },
                };
                let alternative = match self.peek() {
                    Some(Token::Else) => true,
                    _ => false,
                };
                if alternative {
                    self.advance();
                    let other = match self.parse_stmt() {
                        Ok(other) => other,
                        Err(error) => {
                            return Err(error);
                        },
                    };
                    Ok(
                        Stmt::If {
                            test,
                            branch: Rc::new(branch),
                            else_branch: Some(Rc::new(other)),
                        },
                    )
                } else {
                    Ok(Stmt::If { test, branch: Rc::new(branch), else_branch: None })
                }
            },
            Token::Let => {
                self.advance();
                let named = match self.clone_current() {
                    Ok(named) => named,
                    Err(error) => {
                        return Err(error);
                    },
                };
                if let Token::Ident(ident) = named {
                    self.advance();
                    match self.consume(Token::Equal) {
                        Ok(_) => {},
                        Err(error) => {
                            return Err(error);
                        },
                    }
                    match self.parse_or() {
                        Ok(expr) => Ok(Stmt::Let { ident, expr }),
                        Err(error) => Err(error),
                    }
                } else {
                    Err(
                        IntyError::SyntaxError {
                            token: None,
                            message: "expected identifier".to_owned(),
                        },
                    )
                }
            },
            Token::LeftBrace => {
                self.advance();
                if !self.has_more_tokens() {
                    return Err(
                        IntyError::SyntaxError {
                            token: None,
                            message: "expected right brace".to_owned(),
                        },
                    );
                }
                let ghost tokens = self.input();
                let first = match self.parse_stmt() {
                    Ok(first) => first,
                    Err(error) => {
                        return Err(error);
                    },
                };
                let ghost begun = self.position as int;
                let mut stmts: Vec<Stmt> = Vec::new();
                stmts.push(first);
                assert(view_stmts(stmts@) =~= seq![first@]) by {
                    assert(stmts@.drop_last() =~= Seq::empty());
                    assert(view_stmts(stmts@.drop_last()) =~= Seq::empty());
                }
                loop
                    invariant
                        self.tokens@ == old(self).tokens@,
                        tokens == self.input(),
                        old(self).position < begun <= self.position <= self.tokens@.len(),
                        statement(tokens, old(self).position as int) == match block_from(
                            tokens,
                            begun,
                            seq![first@],
                        ) {
                            Err(failure) => Err(failure),
                            Ok((stmts, more)) => Ok(
                                (
                                    SpecStmt::Block(stmts),
                                    (begun - old(self).position + more) as nat,
                                ),
                            ),
                        },
                        block_from(tokens, begun, seq![first@]) == after(
                            (self.position - begun) as nat,
                            block_from(tokens, self.position as int, view_stmts(stmts@)),
                        ),
                    ensures
                        self.position < self.tokens@.len() ==> self.tokens@[self.position as int]@
                            != SpecToken::Semicolon,
                    decreases self.tokens@.len() - self.position,
                {
                    let separated = match self.peek() {
                        Some(Token::Semicolon) => true,
                        _ => false,
                    };
                    if !separated {
                        break ;
                    }
                    self.advance();
                    let ghost before = view_stmts(stmts@);
                    let ghost earlier = stmts@;
                    let next = match self.parse_stmt() {
                        Ok(next) => next,
                        Err(error) => {
                            return Err(error);
                        },
                    };
                    stmts.push(next);
                    assert(view_stmts(stmts@) =~= before.push(next@)) by {
                        assert(stmts@.drop_last() =~= earlier);
                    }
                }
                match self.consume(Token::RightBrace) {
                    Ok(_) => Ok(Stmt::Block(stmts)),
                    Err(error) => Err(error),
                }
            },
            _ => match self.parse_or() {
                Ok(expr) => Ok(Stmt::Expr(expr)),
                Err(error) => Err(error),
            },
        }
    }

    /// Parses an expression: operands joined by `||`.
    fn parse_or(&mut self) -> (outcome: Result<Expr, IntyError>)
        requires
            old(self).position <= old(self).tokens@.len(),
        ensures
            follows(
                *old(self),
                *final(self),
                chain(old(self).input(), old(self).position as int, Level::Or),
                view_expr_result(outcome),
            ),
            outcome is Ok ==> old(self).position < final(self).position,
            outcome is Ok ==> final(self).position <= final(self).tokens@.len(),
        decreases old(self).tokens@.len() - old(self).position, 11nat,
    {
        let ghost tokens = self.input();
        let ghost start = self.position as int;
        let mut lhs = match self.parse_and() {
            Ok(lhs) => lhs,
            Err(error) => {
                return Err(error);
            },
        };
        while self.has_more_tokens()
            invariant
                self.tokens@ == old(self).tokens@,
                tokens == self.input(),
                start == old(self).position,
                start < self.position <= self.tokens@.len(),
                chain(tokens, start, Level::Or) == after(
                    (self.position - start) as nat,
                    chain_from(tokens, self.position as int, Level::Or, lhs@),
                ),
            ensures
                chain(tokens, start, Level::Or) == Ok::<(SpecExpr, nat), Failure>(
                    (lhs@, (self.position - start) as nat),
                ),
            decreases self.tokens@.len() - self.position,
        {
            let operator = match self.peek() {
                Some(Token::Or) => Token::Or,
                _ => {
                    break ;
                },
            };
            let ghost here = self.position as int;
            self.advance();
            assert(operand(tokens, here + 1, Level::Or) == chain(
                tokens,
                here + 1,
                Level::And,
            ));
            let rhs = match self.parse_and() {
                Ok(rhs) => rhs,
                Err(error) => {
                    return Err(error);
                },
            };
            lhs = Expr::Logical {
                operator: LogOp::from(operator),
                lhs: Rc::new(lhs),
                rhs: Rc::new(rhs),
            };
        }
        Ok(lhs)
    }

    /// Parses operands joined by `&&`.
    fn parse_and(&mut self) -> (outcome: Result<Expr, IntyError>)
        requires
            old(self).position <= old(self).tokens@.len(),
        ensures
            follows(
                *old(self),
                *final(self),
                chain(old(self).input(), old(self).position as int, Level::And),
                view_expr_result(outcome),
            ),
            outcome is Ok ==> old(self).position < final(self).position,
            outcome is Ok ==> final(self).position <= final(self).tokens@.len(),
        decreases old(self).tokens@.len() - old(self).position, 9nat,
    {
        let ghost tokens = self.input();
        let ghost start = self.position as int;
        let mut lhs = match self.parse_rel() {
            Ok(lhs) => lhs,
            Err(error) => {
                return Err(error);
            },
        };
        while self.has_more_tokens()
            invariant
                self.tokens@ == old(self).tokens@,
                tokens == self.input(),
                start == old(self).position,
                start < self.position <= self.tokens@.len(),
                chain(tokens, start, Level::And) == after(
                    (self.position - start) as nat,
                    chain_from(tokens, self.position as int, Level::And, lhs@),
                ),
            ensures
                chain(tokens, start, Level::And) == Ok::<(SpecExpr, nat), Failure>(
                    (lhs@, (self.position - start) as nat),
                ),
            decreases self.tokens@.len() - self.position,
        {
            let operator = match self.peek() {
                Some(Token::And) => Token::And,
                _ => {
                    break ;
                },
            };
            let ghost here = self.position as int;
            self.advance();
            assert(operand(tokens, here + 1, Level::And) == chain(
                tokens,
                here + 1,
                Level::Relational,
            ));
            let rhs = match self.parse_rel() {
                Ok(rhs) => rhs,
                Err(error) => {
                    return Err(error);
                },
            };
            lhs = Expr::Logical {
                operator: LogOp::from(operator),
                lhs: Rc::new(lhs),
                rhs: Rc::new(rhs),
            };
        }
        Ok(lhs)
    }

    /// Parses operands joined by comparisons.
    fn parse_rel(&mut self) -> (outcome: Result<Expr, IntyError>)
        requires
            old(self).position <= old(self).tokens@.len(),
        ensures
            follows(
                *old(self),
                *final(self),
                chain(old(self).input(), old(self).position as int, Level::Relational),
                view_expr_result(outcome),
            ),
            outcome is Ok ==> old(self).position < final(self).position,
            outcome is Ok ==> final(self).position <= final(self).tokens@.len(),
        decreases old(self).tokens@.len() - old(self).position, 7nat,
    {
        let ghost tokens = self.input();
        let ghost start = self.position as int;
        let mut lhs = match self.parse_expr() {
            Ok(lhs) => lhs,
            Err(error) => {
                return Err(error);
            },
        };
        while self.has_more_tokens()
            invariant
                self.tokens@ == old(self).tokens@,
                tokens == self.input(),
                start == old(self).position,
                start < self.position <= self.tokens@.len(),
                chain(tokens, start, Level::Relational) == after(
                    (self.position - start) as nat,
                    chain_from(tokens, self.position as int, Level::Relational, lhs@),
                ),
            ensures
                chain(tokens, start, Level::Relational) == Ok::<(SpecExpr, nat), Failure>(
                    (lhs@, (self.position - start) as nat),
                ),
            decreases self.tokens@.len() - self.position,
        {
            let operator = match self.peek() {
                Some(Token::RelEq) => Token::RelEq,
                Some(Token::RelNe) => Token::RelNe,
                Some(Token::RelGt) => Token::RelGt,
                Some(Token::RelLt) => Token::RelLt,
                Some(Token::RelGte) => Token::RelGte,
                Some(Token::RelLte) => Token::RelLte,
                _ => {
                    break ;
                },
            };
            let ghost here = self.position as int;
            self.advance();
            assert(operand(tokens, here + 1, Level::Relational) == chain(
                tokens,
                here + 1,
                Level::Additive,
            ));
            let rhs = match self.parse_expr() {
                Ok(rhs) => rhs,
                Err(error) => {
                    return Err(error);
                },
            };
            lhs = Expr::Relational {
                operator: RelOp::from(operator),
                lhs: Rc::new(lhs),
                rhs: Rc::new(rhs),
            };
        }
        Ok(lhs)
    }

    /// Parses operands joined by `+` and `-`.
    fn parse_expr(&mut self) -> (outcome: Result<Expr, IntyError>)
        requires
            old(self).position <= old(self).tokens@.len(),
        ensures
            follows(
                *old(self),
                *final(self),
                chain(old(self).input(), old(self).position as int, Level::Additive),
                view_expr_result(outcome),
            ),
            outcome is Ok ==> old(self).position < final(self).position,
            outcome is Ok ==> final(self).position <= final(self).tokens@.len(),
        decreases old(self).tokens@.len() - old(self).position, 5nat,
    {
        let ghost tokens = self.input();
        let ghost start = self.position as int;
        let mut lhs = match self.parse_mult() {
            Ok(lhs) => lhs,
            Err(error) => {
                return Err(error);
            },
        };
        while self.has_more_tokens()
            invariant
                self.tokens@ == old(self).tokens@,
                tokens == self.input(),
                start == old(self).position,
                start < self.position <= self.tokens@.len(),
                chain(tokens, start, Level::Additive) == after(
                    (self.position - start) as nat,
                    chain_from(tokens, self.position as int, Level::Additive, lhs@),
                ),
            ensures
                chain(tokens, start, Level::Additive) == Ok::<(SpecExpr, nat), Failure>(
                    (lhs@, (self.position - start) as nat),
                ),
            decreases self.tokens@.len() - self.position,
        {
            let operator = match self.peek() {
                Some(Token::Plus) => Token::Plus,
                Some(Token::Hyphen) => Token::Hyphen,
                _ => {
                    break ;
                },
            };
            let ghost here = self.position as int;
            self.advance();
            assert(operand(tokens, here + 1, Level::Additive) == chain(
                tokens,
                here + 1,
                Level::Multiplicative,
            ));
            let rhs = match self.parse_mult() {
                Ok(rhs) => rhs,
                Err(error) => {
                    return Err(error);
                },
            };
            lhs = Expr::Binary {
                operator: BinOp::from(operator),
                lhs: Rc::new(lhs),
                rhs: Rc::new(rhs),
            };
        }
        Ok(lhs)
    }

    /// Parses operands joined by `*` and `/`.
    fn parse_mult(&mut self) -> (outcome: Result<Expr, IntyError>)
        requires
            old(self).position <= old(self).tokens@.len(),
        ensures
            follows(
                *old(self),
                *final(self),
                chain(old(self).input(), old(self).position as int, Level::Multiplicative),
                view_expr_result(outcome),
            ),
            outcome is Ok ==> old(self).position < final(self).position,
            outcome is Ok ==> final(self).position <= final(self).tokens@.len(),
        decreases old(self).tokens@.len() - old(self).position, 3nat,
    {
        let ghost tokens = self.input();
        let ghost start = self.position as int;
        let mut lhs = match self.parse_pow() {
            Ok(lhs) => lhs,
            Err(error) => {
                return Err(error);
            },
        };
        while self.has_more_tokens()
            invariant
                self.tokens@ == old(self).tokens@,
                tokens == self.input(),
                start == old(self).position,
                start < self.position <= self.tokens@.len(),
                chain(tokens, start, Level::Multiplicative) == after(
                    (self.position - start) as nat,
                    chain_from(tokens, self.position as int, Level::Multiplicative, lhs@),
                ),
            ensures
                chain(tokens, start, Level::Multiplicative) == Ok::<(SpecExpr, nat), Failure>(
                    (lhs@, (self.position - start) as nat),
                ),
            decreases self.tokens@.len() - self.position,
        {
            let operator = match self.peek() {
                Some(Token::Star) => Token::Star,
                Some(Token::Divide) => Token::Divide,
                _ => {
                    break ;
                },
            };
            let ghost here = self.position as int;
            self.advance();
            assert(operand(tokens, here + 1, Level::Multiplicative) == power(tokens, here + 1));
            let rhs = match self.parse_pow() {
                Ok(rhs) => rhs,
                Err(error) => {
                    return Err(error);
                },
            };
            lhs = Expr::Binary {
                operator: BinOp::from(operator),
                lhs: Rc::new(lhs),
                rhs: Rc::new(rhs),
            };
        }
        Ok(lhs)
    }

    /// Parses a unary expression, with its exponent if `^` follows.
    fn parse_pow(&mut self) -> (outcome: Result<Expr, IntyError>)
        requires
            old(self).position <= old(self).tokens@.len(),
        ensures
            follows(
                *old(self),
                *final(self),
                power(old(self).input(), old(self).position as int),
                view_expr_result(outcome),
            ),
            outcome is Ok ==> old(self).position < final(self).position,
            outcome is Ok ==> final(self).position <= final(self).tokens@.len(),
        decreases old(self).tokens@.len() - old(self).position, 1nat,
    {
        let lhs = match self.parse_unary() {
            Ok(lhs) => lhs,
            Err(error) => {
                return Err(error);
            },
        };
        let raised = match self.peek() {
            Some(Token::Caret) => true,
            _ => false,
        };
        if !raised {
            return Ok(lhs);
        }
        self.advance();
        match self.parse_pow() {
            Ok(rhs) => Ok(
                Expr::Binary {
                    operator: BinOp::from(Token::Caret),
                    lhs: Rc::new(lhs),
                    rhs: Rc::new(rhs),
                },
            ),
            Err(error) => Err(error),
        }
    }

    /// Parses a literal, an identifier, a parenthesized expression, a list
    /// literal, or a unary operator with its operand.
    fn parse_unary(&mut self) -> (outcome: Result<Expr, IntyError>)
        requires
            old(self).position <= old(self).tokens@.len(),
        ensures
            follows(
                *old(self),
                *final(self),
                unary(old(self).input(), old(self).position as int),
                view_expr_result(outcome),
            ),
            outcome is Ok ==> old(self).position < final(self).position,
            outcome is Ok ==> final(self).position <= final(self).tokens@.len(),
        decreases old(self).tokens@.len() - old(self).position, 0nat,
    {
        let token = match self.clone_current() {
            Ok(token) => token,
            Err(error) => {
                return Err(error);
            },
        };
        match token {
            Token::Integer(value) => {
                self.advance();
                Ok(Expr::Integer(value))
            },
            Token::Ident(ident) => {
                self.advance();
                Ok(Expr::Ident(ident))
            },
            Token::True => {
                self.advance();
                Ok(Expr::Bool(true))
            },
            Token::False => {
                self.advance();
                Ok(Expr::Bool(false))
            },
            Token::Bang => {
                self.advance();
                match self.parse_unary() {
                    Ok(operand) => Ok(
                        Expr::Unary { operator: UnOp::from(token), value: Rc::new(operand) },
                    ),
                    Err(error) => Err(error),
                }
            },
            Token::Hyphen | Token::Plus => {
                self.advance();
                match self.parse_pow() {
                    Ok(operand) => Ok(
                        Expr::Unary { operator: UnOp::from(token), value: Rc::new(operand) },
                    ),
                    Err(error) => Err(error),
                }
            },
            Token::LeftParen => {
                self.advance();
                if !self.has_more_tokens() {
                    return Err(
                        IntyError::SyntaxError {
                            token: None,
                            message: "expected right parenthesis".to_owned(),
                        },
                    );
                }
                let expr = match self.parse_or() {
                    Ok(expr) => expr,
                    Err(error) => {
                        return Err(error);
                    },
                };
                match self.consume(Token::RightParen) {
                    Ok(_) => Ok(expr),
                    Err(error) => Err(error),
                }
            },
            Token::LeftBracket => {
                self.advance();
                if !self.has_more_tokens() {
                    return Err(
                        IntyError::SyntaxError {
                            token: None,
                            message: "expected right bracket".to_owned(),
                        },
                    );
                }
                let ghost tokens = self.input();
                let ghost inside = self.position as int;
                let mut values: Vec<Expr> = Vec::new();
                assert(view_exprs(values@) =~= Seq::empty());
                loop
                    invariant
                        self.tokens@ == old(self).tokens@,
                        tokens == self.input(),
                        inside == old(self).position + 1,
                        inside <= self.position <= self.tokens@.len(),
                        unary(tokens, old(self).position as int) == match elements(
                            tokens,
                            inside,
                            Seq::empty(),
                        ) {
                            Err(failure) => Err(failure),
                            Ok((items, used)) => Ok((SpecExpr::List(items), 1 + used)),
                        },
                        elements(tokens, inside, Seq::empty()) == after(
                            (self.position - inside) as nat,
                            elements(tokens, self.position as int, view_exprs(values@)),
                        ),
                    ensures
                        self.position < self.tokens@.len() ==> self.tokens@[self.position as int]@
                            == SpecToken::RightBracket,
                    decreases self.tokens@.len() - self.position,
                {
                    let next: u8 = match self.peek() {
                        None => 0,
                        Some(Token::Comma) => 1,
                        Some(Token::RightBracket) => 0,
                        Some(_) => 2,
                    };
                    if next == 0 {
                        break ;
                    } else if next == 1 {
                        self.advance();
                    } else {
                        let ghost before = view_exprs(values@);
                        let ghost earlier = values@;
                        let value = match self.parse_or() {
                            Ok(value) => value,
                            Err(error) => {
                                return Err(error);
                            },
                        };
                        values.push(value);
                        assert(view_exprs(values@) =~= before.push(value@)) by {
                            assert(values@.drop_last() =~= earlier);
                        }
                    }
                }
                match self.consume(Token::RightBracket) {
                    Ok(_) => Ok(Expr::List(values)),
                    Err(error) => Err(error),
                }
            },
            _ => Err(
                IntyError::SyntaxError {
                    token: Some(token),
                    message: "unexpected token".to_owned(),
                },
            ),
        }
    }
}

} // verus!
