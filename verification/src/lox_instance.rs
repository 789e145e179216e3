//! Instances.
use vstd::prelude::*;
use vstd::hash_map::StringHashMap;
use crate::heap::{bound, Heap};
use crate::lox_callable::LoxCallable;
use crate::runtime_value::{RuntimeError, RuntimeValue};
use crate::token::Token;

verus! {

/// An instance: the handle of its class and its fields.
pub struct LoxInstance {
    pub class: usize,
    pub fields: StringHashMap<RuntimeValue>,
}

impl LoxInstance {
    /// An instance of the class without fields.
    pub fn new(class: usize) -> (r: Self)
        ensures
            r.class == class,
            r.fields@ == Map::<Seq<char>, RuntimeValue>::empty(),
    {
        LoxInstance { class, fields: StringHashMap::new() }
    }

    /// Reads a property of the instance `this`: a field, or else a method
    /// of its class, bound to the instance; fields shadow methods.
    pub fn get<'a>(heap: &mut Heap<'a>, this: usize, name: &Token) -> (r: Result<
        RuntimeValue,
        RuntimeError,
    >)
        requires
            old(heap).wf(),
            this < old(heap).instances@.len(),
        ensures
            final(heap).wf(),
            ({
                let object = old(heap).instances@[this as int];
                let class = old(heap).classes@[object.class as int];
                if object.fields@.contains_key(name.lexeme@) {
                    &&& r == Ok::<RuntimeValue, RuntimeError>(object.fields@[name.lexeme@])
                    &&& *final(heap) == *old(heap)
                } else if class.methods@.contains_key(name.lexeme@) {
                    &&& r == Ok::<RuntimeValue, RuntimeError>(
                        RuntimeValue::LoxCallable(
                            LoxCallable::LoxFunction(old(heap).functions@.len() as usize),
                        ),
                    )
                    &&& bound(*final(heap), *old(heap), class.methods@[name.lexeme@] as int, this)
                } else {
                    &&& r == Err::<RuntimeValue, RuntimeError>(
                        RuntimeError::UndefinedProperty { name: *name },
                    )
                    &&& *final(heap) == *old(heap)
                }
            }),
    {
        heap.get_property(this, name)
    }

    /// Sets a field, creating it if it is not there.
    pub fn set(&mut self, name: Token, value: RuntimeValue)
        ensures
            final(self).class == old(self).class,
            final(self).fields@ == old(self).fields@.insert(name.lexeme@, value),
    {
        self.fields.insert(name.lexeme, value);
    }

    /// The field of the given name, if the instance has one.
    pub fn field(&self, name: &str) -> (r: Option<RuntimeValue>)
        ensures
            r == if self.fields@.contains_key(name@) {
                Some(self.fields@[name@])
            } else {
                None
            },
    {
        match self.fields.get(name) {
            Some(value) => Some(value.clone()),
            None => None,
        }
    }
}

} // verus!
