//! Front end of a line-based arithmetic language: a tokenizer, a
//! precedence-climbing parser, and the evaluation rules that do not depend
//! on floating-point arithmetic.
pub mod errors;
pub mod evaluation;
pub mod help;
pub mod lexer;
pub mod parser;
