//! Infix arithmetic expressions: a space-delimited tokenizer, a
//! shunting-yard parser that honors operator precedence and parentheses,
//! and a recursive evaluator over the resulting expression tree.

pub mod error;
pub mod expr;
pub mod operator;
pub mod token;
