//! A tree-walking interpreter for the Lox language.
//!
//! The pipeline is: source text, [`scanner`], tokens, [`parser`], statements,
//! [`resolver`], scope distances, [`interpreter`].  Doubles never enter this
//! crate as floating-point values: a number is carried as the `u64` bit pattern
//! of an IEEE-754 double, and whatever must be computed on doubles is asked of
//! the host through an [`interpreter::Action`].
pub mod string;
pub mod token_type;
pub mod token;
pub mod lox;
pub mod scanner;
pub mod ast;
pub mod grammar;
pub mod parser;
pub mod number;
pub mod lox_callable;
pub mod runtime_value;
pub mod lox_function;
pub mod lox_class;
pub mod lox_instance;
pub mod environment;
pub mod heap;
pub mod resolver;
pub mod interpreter;
