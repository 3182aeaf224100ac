//! The errors that the lexer, the parser and the evaluator report.

use vstd::prelude::*;
use crate::token::{view_opt, SpecToken, Token};

verus! {

/// An error of any of the three stages.
#[derive(Debug, PartialEq)]
pub enum IntyError {
    /// The parser met a token it cannot use, or ran out of tokens.
    SyntaxError { token: Option<Token>, message: String },
    /// The lexer met a character that starts no token.
    UnexpectedChar { character: char },
    /// The parser needed one token and found another.
    ExpectedTokenError { expected: Token, found: Token },
    /// The program asks for something that has no result.
    LogicError { message: String },
    /// The divisor of a division is zero.
    DivideByZeroError,
    /// Tokens are left after a complete program.
    InvalidExpressionError { message: String },
    /// An identifier is bound in no enclosing scope.
    UnknownIdentifier { ident: String },
    /// An operand is of the wrong kind for its operator.
    TypeError { message: String },
    /// An integer literal does not fit in 32 bits.
    ParseIntError { literal: String },
}

/// The mathematical model of an [`IntyError`].
pub enum SpecError {
    SyntaxError { token: Option<SpecToken>, message: Seq<char> },
    UnexpectedChar { character: char },
    ExpectedTokenError { expected: SpecToken, found: SpecToken },
    LogicError { message: Seq<char> },
    DivideByZeroError,
    InvalidExpressionError { message: Seq<char> },
    UnknownIdentifier { ident: Seq<char> },
    TypeError { message: Seq<char> },
    ParseIntError { literal: Seq<char> },
}

impl IntyError {
    /// The model of the error.
    pub open spec fn view(&self) -> SpecError {
        match self {
            IntyError::SyntaxError { token, message } => SpecError::SyntaxError {
                token: view_opt(*token),
                message: message@,
            },
            IntyError::UnexpectedChar { character } => SpecError::UnexpectedChar {
                character: *character,
            },
            IntyError::ExpectedTokenError { expected, found } => SpecError::ExpectedTokenError {
                expected: expected@,
                found: found@,
            },
            IntyError::LogicError { message } => SpecError::LogicError { message: message@ },
            IntyError::DivideByZeroError => SpecError::DivideByZeroError,
            IntyError::InvalidExpressionError { message } => SpecError::InvalidExpressionError {
                message: message@,
            },
            IntyError::UnknownIdentifier { ident } => SpecError::UnknownIdentifier {
                ident: ident@,
            },
            IntyError::TypeError { message } => SpecError::TypeError { message: message@ },
            IntyError::ParseIntError { literal } => SpecError::ParseIntError { literal: literal@ },
        }
    }
}

impl SpecError {
    /// An error of the lexer.
    pub open spec fn is_lexical(self) -> bool {
        self is UnexpectedChar || self is ParseIntError
    }

    /// An error of the parser.
    pub open spec fn is_syntactic(self) -> bool {
        self is SyntaxError || self is ExpectedTokenError || self is InvalidExpressionError
    }

    /// An error of the evaluator.
    pub open spec fn is_runtime(self) -> bool {
        self is UnknownIdentifier || self is TypeError || self is DivideByZeroError
            || self is LogicError
    }

    /// The single line that describes the error.
    pub open spec fn describe(self) -> Seq<char> {
        match self {
            SpecError::SyntaxError { token, message } => "syntax error: "@ + message,
            SpecError::UnexpectedChar { character } => "unexpected character: "@.push(character),
            SpecError::ExpectedTokenError { expected, found } => "expected "@ + expected.spelling()
                + ", found "@ + found.spelling(),
            SpecError::LogicError { message } => "logic error: "@ + message,
            SpecError::DivideByZeroError => "cannot divide by zero"@,
            SpecError::InvalidExpressionError { message } => "invalid expression: "@ + message,
            SpecError::UnknownIdentifier { ident } => "unknown identifier: "@ + ident,
            SpecError::TypeError { message } => "type error: "@ + message,
            SpecError::ParseIntError { literal } => "parse int error: "@ + literal
                + " is too large to fit in 32 bits"@,
        }
    }
}

impl IntyError {
    /// The single line that describes the error.
    pub fn to_string(&self) -> (line: String)
        ensures
            line@ == self@.describe(),
    {
        let mut line = String::new();
        match self {
            IntyError::SyntaxError { token, message } => {
                line.append("syntax error: ");
                line.append(message.as_str());
            },
            IntyError::UnexpectedChar { character } => {
                line.append("unexpected character: ");
                line.push(*character);
            },
            IntyError::ExpectedTokenError { expected, found } => {
                line.append("expected ");
                expected.write_to(&mut line);
                line.append(", found ");
                found.write_to(&mut line);
            },
            IntyError::LogicError { message } => {
                line.append("logic error: ");
                line.append(message.as_str());
            },
            IntyError::DivideByZeroError => {
                line.append("cannot divide by zero");
            },
            IntyError::InvalidExpressionError { message } => {
                line.append("invalid expression: ");
                line.append(message.as_str());
            },
            IntyError::UnknownIdentifier { ident } => {
                line.append("unknown identifier: ");
                line.append(ident.as_str());
            },
            IntyError::TypeError { message } => {
                line.append("type error: ");
                line.append(message.as_str());
            },
            IntyError::ParseIntError { literal } => {
                line.append("parse int error: ");
                line.append(literal.as_str());
                line.append(" is too large to fit in 32 bits");
            },
        }
        assert(line@ =~= self@.describe());
        line
    }
}

} // verus!
