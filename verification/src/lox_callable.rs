//! What can be called: functions, classes, and the native clock.
use vstd::prelude::*;
use crate::heap::{arity_of, text_of, Heap};
use crate::interpreter::{Action, Interpreter};
use crate::runtime_value::RuntimeValue;

verus! {

/// The native function `clock`: seconds since the Unix epoch.
#[derive(Debug, Clone, Copy, PartialEq, Eq, Structural)]
pub struct Clock;

/// A callable value.  A function and a class are handles into the heap,
/// which gives them their identity.
#[derive(Debug, Clone, Copy, PartialEq, Eq, Structural)]
pub enum LoxCallable {
    LoxFunction(usize),
    LoxClass(usize),
    Clock(Clock),
}

/// What every callable has: an arity, a way to be called, and a way to
/// be printed.
pub trait LoxCall {
    /// The callable as a value.
    spec fn callable(&self) -> LoxCallable;

    /// The number of arguments that the callable takes: the parameters of
    /// a function, those of the initializer of a class or 0 without one,
    /// and 0 for the clock.
    fn arity<'a>(&self, heap: &Heap<'a>) -> (r: usize)
        requires
            heap.wf(),
            heap.value_ok(RuntimeValue::LoxCallable(self.callable())),
        ensures
            r == arity_of(*heap, self.callable()),
    ;

    /// Starts the call with the arguments on the machine: the clock is for
    /// the host to read, a function is entered, and a class gets a new
    /// instance, whose initializer, if the class has one, is entered.
    fn call<'a>(&self, interpreter: &mut Interpreter<'a>, arguments: Vec<RuntimeValue>) -> (r:
        Action)
        requires
            old(interpreter).wf(),
            old(interpreter).heap.value_ok(RuntimeValue::LoxCallable(self.callable())),
            old(interpreter).heap.all_ok(arguments@),
        ensures
            final(interpreter).wf(),
            final(interpreter).fits(r),
            final(interpreter).grown_from(old(interpreter)),
            final(interpreter).called(
                old(interpreter),
                old(interpreter).stack@,
                RuntimeValue::LoxCallable(self.callable()),
                arguments@,
                r,
            ),
    ;

    /// How the callable is printed: `<fn NAME>` for a function, its name
    /// for a class, and `<fn clock>` for the clock.
    fn to_string<'a>(&self, heap: &Heap<'a>) -> (r: String)
        requires
            heap.wf(),
            heap.value_ok(RuntimeValue::LoxCallable(self.callable())),
        ensures
            Some(r@) == text_of(*heap, RuntimeValue::LoxCallable(self.callable())),
    ;
}

impl LoxCall for LoxCallable {
    open spec fn callable(&self) -> LoxCallable {
        *self
    }

    fn arity<'a>(&self, heap: &Heap<'a>) -> (r: usize) {
        heap.arity(self)
    }

    fn call<'a>(&self, interpreter: &mut Interpreter<'a>, arguments: Vec<RuntimeValue>) -> (r:
        Action) {
        interpreter.call(RuntimeValue::LoxCallable(*self), arguments)
    }

    fn to_string<'a>(&self, heap: &Heap<'a>) -> (r: String) {
        match heap.stringify(&RuntimeValue::LoxCallable(*self)) {
            Some(text) => text,
            None => String::new(),
        }
    }
}

impl LoxCall for Clock {
    open spec fn callable(&self) -> LoxCallable {
        LoxCallable::Clock(*self)
    }

    fn arity<'a>(&self, heap: &Heap<'a>) -> (r: usize) {
        0
    }

    fn call<'a>(&self, interpreter: &mut Interpreter<'a>, arguments: Vec<RuntimeValue>) -> (r:
        Action) {
        interpreter.call(RuntimeValue::LoxCallable(LoxCallable::Clock(*self)), arguments)
    }

    fn to_string<'a>(&self, heap: &Heap<'a>) -> (r: String) {
        String::from_str("<fn clock>")
    }
}

} // verus!
