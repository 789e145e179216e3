//! The syntax tree: expressions, statements, and their common model.
pub mod tree;
pub mod expr;
pub mod stmt;
pub mod copy;
