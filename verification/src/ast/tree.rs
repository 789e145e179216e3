//! The mathematical model of a syntax tree.
use vstd::prelude::*;
use crate::ast::expr::{BinaryExprOp, LiteralExprType, UnaryExprOp};
use crate::token::TokenView;

verus! {

/// What kind of node a [`Tree`] is.
pub enum Tag {
    Literal(LiteralExprType),
    Logical,
    Unary(UnaryExprOp),
    Binary(BinaryExprOp),
    Call,
    Grouping,
    Variable,
    Assignment,
    Get,
    SetProperty,
    This,
    Block,
    Expression,
    Print,
    /// A variable declaration; its initializer, if any, is the only child.
    Var,
    /// Children: condition, then-branch and, if present, else-branch.
    If,
    /// Children: condition and body.
    While,
    /// Tokens: the name, then the parameters.  Children: the body.
    Function,
    /// Its value, if any, is the only child.
    Return,
    /// Children: the methods.
    Class,
}

/// A syntax tree as a plain value: the node's kind, its identity (0 for a
/// statement), the tokens it keeps, and its children in source order.
pub struct Tree {
    pub tag: Tag,
    pub id: nat,
    pub tokens: Seq<TokenView>,
    pub kids: Seq<Tree>,
}

} // verus!
