//! Front end and evaluation core of a small expression-oriented scripting
//! language: a lexer, a precedence-climbing parser and a tree-walking
//! evaluator with lexically scoped environments.
//!
//! Source text goes through three stages, each of which gives its result or
//! an [`IntyError`]:
//!
//! * [`Lexer::tokenize`] turns text into [`Token`]s; what it gives is
//!   [`lexer::lex`].
//! * [`Parser::parse`] turns tokens into [`Stmt`]s; what it gives is
//!   [`grammar::program`].
//! * [`Evaluator::eval`] reduces statements to [`Value`]s in an
//!   [`Environment`]; what it gives is [`semantics::eval_program`].
//!
//! [`process_string`] runs the three in a row.
//!
//! Every type has a mathematical model (`SpecToken`, `SpecExpr`, `SpecStmt`,
//! `SpecValue`, `SpecEnv`, `SpecError`), which `@` gives, and the contracts
//! are stated over the models. The modules whose names end in `_laws` hold
//! what is proved of the three stages on all inputs.

pub mod arith;
pub mod env;
pub mod error;
pub mod eval;
pub mod expr;
pub mod grammar;
pub mod grammar_laws;
pub mod lexer;
pub mod lexer_laws;
pub mod op;
pub mod parser;
pub mod pieces;
pub mod run;
pub mod run_laws;
pub mod semantics;
pub mod semantics_laws;
pub mod spelling;
pub mod spelling_laws;
pub mod stmt;
pub mod text;
pub mod token;
pub mod value;

pub use env::Environment;
pub use error::IntyError;
pub use eval::Evaluator;
pub use expr::Expr;
pub use lexer::Lexer;
pub use op::{BinOp, LogOp, RelOp, UnOp};
pub use parser::Parser;
pub use run::process_string;
pub use stmt::Stmt;
pub use token::Token;
pub use value::Value;
