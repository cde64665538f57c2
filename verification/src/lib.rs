//! A small functional expression language front end: a character-level
//! tokenizer and a recursive-descent parser with an explicit precedence
//! ladder, verified against specification-level models of both stages.

pub mod ast;
pub mod chars;
pub mod error;
pub mod lexer;
pub mod parser;
pub mod tokens;

pub use tokens::Token;
pub use error::ParseError;
pub use lexer::Lexer;
pub use parser::Parser;
pub use ast::{Program, Expression, Term, MatchArm, Pattern, TypeAnnotation, ComparisonOperator, LogicOperator, ArithmeticOperator, CompositionOperator, FunctionComposition};
