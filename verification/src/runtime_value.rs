//! Values and runtime errors.
use vstd::prelude::*;
use crate::ast::expr::{LiteralExpr, LiteralExprType};
use crate::lox_callable::LoxCallable;
use crate::number::{equal, is_nan, number_eq};
use crate::token::Token;
use crate::token_type::TokenType;

verus! {

/// A value.  A number is the bit pattern of a double; an instance is a
/// handle into the heap, which gives it its identity.
#[derive(Debug, PartialEq)]
pub enum RuntimeValue {
    Nil,
    Boolean(bool),
    Number(u64),
    String(String),
    LoxCallable(LoxCallable),
    LoxInstance(usize),
}

impl Clone for RuntimeValue {
    fn clone(&self) -> (r: Self)
        ensures
            r == *self,
    {
        match self {
            RuntimeValue::Nil => RuntimeValue::Nil,
            RuntimeValue::Boolean(b) => RuntimeValue::Boolean(*b),
            RuntimeValue::Number(n) => RuntimeValue::Number(*n),
            RuntimeValue::String(s) => RuntimeValue::String(s.clone()),
            RuntimeValue::LoxCallable(c) => RuntimeValue::LoxCallable(*c),
            RuntimeValue::LoxInstance(i) => RuntimeValue::LoxInstance(*i),
        }
    }
}

impl RuntimeValue {
    /// Everything is truthy but `nil` and `false`.
    pub open spec fn truthy(&self) -> bool {
        match self {
            RuntimeValue::Nil => false,
            RuntimeValue::Boolean(b) => *b,
            _ => true,
        }
    }

    /// Lox's `==`: numbers as doubles, strings by their characters,
    /// callables and instances by identity, and false across kinds.
    pub open spec fn equals(&self, other: &RuntimeValue) -> bool {
        match (*self, *other) {
            (RuntimeValue::Nil, RuntimeValue::Nil) => true,
            (RuntimeValue::Boolean(a), RuntimeValue::Boolean(b)) => a == b,
            (RuntimeValue::Number(a), RuntimeValue::Number(b)) => number_eq(a, b),
            (RuntimeValue::String(a), RuntimeValue::String(b)) => a@ == b@,
            (RuntimeValue::LoxCallable(a), RuntimeValue::LoxCallable(b)) => a == b,
            (RuntimeValue::LoxInstance(a), RuntimeValue::LoxInstance(b)) => a == b,
            _ => false,
        }
    }

    /// Whether the value counts as true.
    pub fn is_truthy(&self) -> (r: bool)
        ensures
            r == self.truthy(),
    {
        match self {
            RuntimeValue::Nil => false,
            RuntimeValue::Boolean(b) => *b,
            _ => true,
        }
    }

    /// Lox's `==`.
    pub fn is_equal(&self, other: &RuntimeValue) -> (r: bool)
        ensures
            r == self.equals(other),
    {
        match (self, other) {
            (RuntimeValue::Nil, RuntimeValue::Nil) => true,
            (RuntimeValue::Boolean(a), RuntimeValue::Boolean(b)) => *a == *b,
            (RuntimeValue::Number(a), RuntimeValue::Number(b)) => equal(*a, *b),
            (RuntimeValue::String(a), RuntimeValue::String(b)) => *a == *b,
            (RuntimeValue::LoxCallable(a), RuntimeValue::LoxCallable(b)) => *a == *b,
            (RuntimeValue::LoxInstance(a), RuntimeValue::LoxInstance(b)) => *a == *b,
            _ => false,
        }
    }

    /// The value of a literal that is no number: `None` for a number, whose
    /// numeral the host decodes.
    pub open spec fn literal(expr: &LiteralExpr) -> Option<RuntimeValue> {
        match expr.literal_type {
            LiteralExprType::Nil => Some(RuntimeValue::Nil),
            LiteralExprType::True => Some(RuntimeValue::Boolean(true)),
            LiteralExprType::False => Some(RuntimeValue::Boolean(false)),
            LiteralExprType::String => match expr.token.token_type {
                TokenType::String(s) => Some(RuntimeValue::String(s)),
                _ => Some(RuntimeValue::String(expr.token.lexeme)),
            },
            LiteralExprType::Number => None,
        }
    }

    /// The value of a literal that is no number.
    pub fn from_literal(expr: &LiteralExpr) -> (r: Option<RuntimeValue>)
        ensures
            r == Self::literal(expr),
    {
        match expr.literal_type {
            LiteralExprType::Nil => Some(RuntimeValue::Nil),
            LiteralExprType::True => Some(RuntimeValue::Boolean(true)),
            LiteralExprType::False => Some(RuntimeValue::Boolean(false)),
            LiteralExprType::String => match &expr.token.token_type {
                TokenType::String(s) => Some(RuntimeValue::String(s.clone())),
                _ => Some(RuntimeValue::String(expr.token.lexeme.clone())),
            },
            LiteralExprType::Number => None,
        }
    }
}

impl RuntimeValue {
    /// `nil`, a boolean, a number or a string.
    pub open spec fn is_primitive(&self) -> bool {
        self is Nil || self is Boolean || self is Number || self is String
    }

    /// `==` is reflexive on `nil`, booleans, strings and the numbers that
    /// are numbers; a double that is not a number equals nothing.
    pub proof fn lemma_equals_reflexive(self)
        requires
            self.is_primitive(),
            self matches RuntimeValue::Number(n) ==> !is_nan(n),
        ensures
            self.equals(&self),
    {
    }

    /// Reference identity: a callable equals itself, and so does an
    /// instance.
    pub proof fn lemma_equals_identity(self)
        requires
            self is LoxCallable || self is LoxInstance,
        ensures
            self.equals(&self),
    {
    }

    /// `==` across two kinds of value is false.
    pub proof fn lemma_equals_across_kinds(self, other: RuntimeValue)
        requires
            (self is Nil) != (other is Nil) || (self is Boolean) != (other is Boolean) || (
            self is Number) != (other is Number) || (self is String) != (other is String) || (
            self is LoxCallable) != (other is LoxCallable) || (self is LoxInstance) != (
            other is LoxInstance),
        ensures
            !self.equals(&other),
            !other.equals(&self),
    {
    }

    /// `==` is symmetric.
    pub proof fn lemma_equals_symmetric(self, other: RuntimeValue)
        ensures
            self.equals(&other) == other.equals(&self),
    {
    }
}

/// The numeral of a number literal: what its token carries, or its lexeme
/// if the token is no number token.
pub open spec fn numeral(expr: &LiteralExpr) -> Seq<char> {
    match expr.token.token_type {
        TokenType::Number(s) => s@,
        _ => expr.token.lexeme@,
    }
}

/// The numeral of a number literal.
pub fn numeral_of(expr: &LiteralExpr) -> (r: String)
    ensures
        r@ == numeral(expr),
{
    match &expr.token.token_type {
        TokenType::Number(s) => s.clone(),
        _ => expr.token.lexeme.clone(),
    }
}

/// Why evaluation stopped.  A token says where.
#[derive(Debug, PartialEq)]
pub enum RuntimeError {
    /// The operand of unary `-` is no number.
    InvalidUnaryExpr { operator: Token },
    /// The operands of a binary operator are not what it takes.
    InvalidBinaryExpr { operator: Token },
    /// A property is read of what is no instance.
    InvalidGetExpr { name: Token },
    /// A property is written of what is no instance.
    InvalidSetExpr { name: Token },
    UndefinedVariable { name: Token },
    UndefinedProperty { name: Token },
    /// What is called is neither a function nor a class.
    InvalidCallable { value: RuntimeValue },
    WrongNumberOfArgs { expected: usize, found: usize },
    /// A `return` outside of any function reached the top level.
    NonErrorReturnShortCircuit { value: RuntimeValue },
}

} // verus!
