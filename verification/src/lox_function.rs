//! User functions.
use vstd::prelude::*;
use crate::ast::stmt::FunctionStmt;
use crate::heap::{bound, Heap};

verus! {

/// A user function: its declaration, the environment it closes over, and
/// whether it is the initializer of a class.
pub struct LoxFunction<'a> {
    pub declaration: &'a FunctionStmt,
    pub closure: usize,
    pub is_initializer: bool,
}

impl<'a> LoxFunction<'a> {
    pub fn new(declaration: &'a FunctionStmt, closure: usize, is_initializer: bool) -> (r: Self)
        ensures
            r.declaration == declaration,
            r.closure == closure,
            r.is_initializer == is_initializer,
    {
        LoxFunction { declaration, closure, is_initializer }
    }

    /// Binds the method `this` to an instance: a new function like the
    /// method, whose closure is a new environment inside the method's that
    /// binds `this` to the instance.
    pub fn bind(heap: &mut Heap<'a>, this: usize, instance: usize) -> (r: usize)
        requires
            old(heap).wf(),
            this < old(heap).functions@.len(),
            instance < old(heap).instances@.len(),
        ensures
            final(heap).wf(),
            r == old(heap).functions@.len(),
            bound(*final(heap), *old(heap), this as int, instance),
    {
        heap.bind_method(this, instance)
    }

    /// The number of parameters.
    pub fn arity(&self) -> (r: usize)
        ensures
            r == self.declaration.params@.len(),
    {
        self.declaration.params.len()
    }

    /// How the function is printed: `<fn NAME>`.
    pub fn to_string(&self) -> (r: String)
        ensures
            r@ == "<fn "@ + self.declaration.name.lexeme@ + ">"@,
    {
        let mut r = String::from_str("<fn ");
        r.append(self.declaration.name.lexeme.as_str());
        r.append(">");
        r
    }
}

impl<'a> Clone for LoxFunction<'a> {
    fn clone(&self) -> (r: Self)
        ensures
            r == *self,
    {
        LoxFunction {
            declaration: self.declaration,
            closure: self.closure,
            is_initializer: self.is_initializer,
        }
    }
}

} // verus!
