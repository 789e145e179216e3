//! Classes.
use vstd::prelude::*;
use vstd::hash_map::StringHashMap;
use crate::heap::{class_arity, Heap};

verus! {

/// A class: its name and its methods, each a handle of a function in the
/// heap.
pub struct LoxClass {
    pub name: String,
    pub methods: StringHashMap<usize>,
}

impl LoxClass {
    pub fn new(name: String, methods: StringHashMap<usize>) -> (r: Self)
        ensures
            r.name == name,
            r.methods == methods,
    {
        LoxClass { name, methods }
    }

    /// The method of the given name, if the class has one.
    pub fn find_method(&self, name: &str) -> (r: Option<usize>)
        ensures
            r == if self.methods@.contains_key(name@) {
                Some(self.methods@[name@])
            } else {
                None
            },
    {
        match self.methods.get(name) {
            Some(method) => Some(*method),
            None => None,
        }
    }

    /// The number of arguments that the class `this` takes: those of its
    /// initializer, or none without one.
    pub fn arity<'a>(heap: &Heap<'a>, this: usize) -> (r: usize)
        requires
            heap.wf(),
            this < heap.classes@.len(),
        ensures
            r == class_arity(*heap, this as int),
    {
        match heap.classes[this].find_method("init") {
            Some(initializer) => heap.functions[initializer].arity(),
            None => 0,
        }
    }

    /// How the class is printed: its name.
    pub fn to_string(&self) -> (r: String)
        ensures
            r == self.name,
    {
        self.name.clone()
    }
}

} // verus!
