//! The heap: the environments, functions, classes and instances that
//! values refer to by handle.  Nothing is ever removed, so a handle stays
//! good.
use vstd::prelude::*;
use crate::environment::{written, Environment};
use crate::lox_callable::LoxCallable;
use crate::lox_class::LoxClass;
use crate::lox_function::LoxFunction;
use crate::lox_instance::LoxInstance;
use crate::runtime_value::{RuntimeError, RuntimeValue};
use crate::token::Token;

verus! {

/// The handle of the global environment.
pub const GLOBALS: usize = 0;

pub struct Heap<'a> {
    pub environments: Vec<Environment>,
    pub functions: Vec<LoxFunction<'a>>,
    pub classes: Vec<LoxClass>,
    pub instances: Vec<LoxInstance>,
}

/// Whether the handle in a value, if it holds one, is below the number of
/// functions, classes or instances.
pub open spec fn value_within(value: RuntimeValue, functions: nat, classes: nat, instances: nat) -> bool {
    match value {
        RuntimeValue::LoxCallable(LoxCallable::LoxFunction(f)) => f < functions,
        RuntimeValue::LoxCallable(LoxCallable::LoxClass(c)) => c < classes,
        RuntimeValue::LoxInstance(i) => i < instances,
        _ => true,
    }
}

/// Whether the handles in the values of a map are good.
pub open spec fn values_within(
    values: Map<Seq<char>, RuntimeValue>,
    functions: nat,
    classes: nat,
    instances: nat,
) -> bool {
    forall|name: Seq<char>| #[trigger]
        values.contains_key(name) ==> value_within(values[name], functions, classes, instances)
}

impl<'a> Heap<'a> {
    /// Whether the handle in a value, if it holds one, is good.
    pub open spec fn value_ok(&self, value: RuntimeValue) -> bool {
        value_within(value, self.functions@.len(), self.classes@.len(), self.instances@.len())
    }

    /// Whether the handles in the values of a map are good.
    pub open spec fn values_ok(&self, values: Map<Seq<char>, RuntimeValue>) -> bool {
        values_within(values, self.functions@.len(), self.classes@.len(), self.instances@.len())
    }

    /// Whether the handles in a list of values are good.
    pub open spec fn all_ok(&self, values: Seq<RuntimeValue>) -> bool {
        forall|i: int| 0 <= i < values.len() ==> self.value_ok(#[trigger] values[i])
    }

    /// Every handle in the heap is good, an environment is enclosed by an
    /// older one, and the global environment is there.
    pub open spec fn wf(&self) -> bool {
        &&& self.environments@.len() > 0
        &&& forall|i: int|
            0 <= i < self.environments@.len() ==> {
                &&& self.values_ok((#[trigger] self.environments@[i]).values@)
                &&& self.environments@[i].enclosing matches Some(e) ==> e < i
            }
        &&& forall|i: int|
            0 <= i < self.functions@.len() ==> (#[trigger] self.functions@[i]).closure
                < self.environments@.len()
        &&& forall|i: int, name: Seq<char>|
            0 <= i < self.classes@.len() && (#[trigger] self.classes@[i].methods@.contains_key(name))
                ==> self.classes@[i].methods@[name] < self.functions@.len()
        &&& forall|i: int|
            0 <= i < self.instances@.len() ==> {
                &&& (#[trigger] self.instances@[i]).class < self.classes@.len()
                &&& self.values_ok(self.instances@[i].fields@)
            }
    }

    /// Nothing but the environments differs from `before`.
    pub open spec fn same_but_environments(&self, before: &Heap<'a>) -> bool {
        &&& self.functions == before.functions
        &&& self.classes == before.classes
        &&& self.instances == before.instances
    }

    /// A heap with the global environment and nothing else.
    pub fn new() -> (r: Self)
        ensures
            r.wf(),
            r.environments@.len() == 1,
            r.environments@[0].enclosing is None,
            r.environments@[0].values@ == Map::<Seq<char>, RuntimeValue>::empty(),
            r.functions@.len() == 0,
            r.classes@.len() == 0,
            r.instances@.len() == 0,
    {
        let mut environments: Vec<Environment> = Vec::new();
        environments.push(Environment::new());
        Heap { environments, functions: Vec::new(), classes: Vec::new(), instances: Vec::new() }
    }

    /// Binds `name` to `value` in the frame `at`.
    pub fn bind(&mut self, at: usize, name: String, value: RuntimeValue)
        requires
            old(self).wf(),
            at < old(self).environments@.len(),
            old(self).value_ok(value),
        ensures
            final(self).wf(),
            final(self).same_but_environments(old(self)),
            written(final(self).environments@, old(self).environments@, at as int, name@, value),
    {
        self.environments[at].define(name, value);
    }

    /// Adds an environment without bindings inside the frame `enclosing`.
    pub fn enclose(&mut self, enclosing: usize) -> (r: usize)
        requires
            old(self).wf(),
            enclosing < old(self).environments@.len(),
        ensures
            final(self).wf(),
            final(self).same_but_environments(old(self)),
            r == old(self).environments@.len(),
            final(self).environments@.len() == r + 1,
            final(self).environments@[r as int].enclosing == Some(enclosing),
            final(self).environments@[r as int].values@ == Map::<Seq<char>, RuntimeValue>::empty(),
            forall|i: int| 0 <= i < r ==> final(self).environments@[i] == old(self).environments@[i],
    {
        let r = self.environments.len();
        self.environments.push(Environment::enclosed(enclosing));
        r
    }

    /// Adds a function.
    pub fn add_function(&mut self, function: LoxFunction<'a>) -> (r: usize)
        requires
            old(self).wf(),
            function.closure < old(self).environments@.len(),
        ensures
            final(self).wf(),
            final(self).environments == old(self).environments,
            final(self).classes == old(self).classes,
            final(self).instances == old(self).instances,
            r == old(self).functions@.len(),
            final(self).functions@ == old(self).functions@.push(function),
    {
        let r = self.functions.len();
        self.functions.push(function);
        r
    }

    /// Adds a class.
    pub fn add_class(&mut self, class: LoxClass) -> (r: usize)
        requires
            old(self).wf(),
            forall|name: Seq<char>| #[trigger]
                class.methods@.contains_key(name) ==> class.methods@[name] < old(
                    self,
                ).functions@.len(),
        ensures
            final(self).wf(),
            final(self).environments == old(self).environments,
            final(self).functions == old(self).functions,
            final(self).instances == old(self).instances,
            r == old(self).classes@.len(),
            final(self).classes@ == old(self).classes@.push(class),
    {
        let r = self.classes.len();
        self.classes.push(class);
        r
    }

    /// Adds an instance of the class `class` without fields.
    pub fn add_instance(&mut self, class: usize) -> (r: usize)
        requires
            old(self).wf(),
            class < old(self).classes@.len(),
        ensures
            final(self).wf(),
            final(self).environments == old(self).environments,
            final(self).functions == old(self).functions,
            final(self).classes == old(self).classes,
            r == old(self).instances@.len(),
            final(self).instances@.len() == r + 1,
            final(self).instances@[r as int].class == class,
            final(self).instances@[r as int].fields@ == Map::<Seq<char>, RuntimeValue>::empty(),
            forall|i: int| 0 <= i < r ==> final(self).instances@[i] == old(self).instances@[i],
    {
        let r = self.instances.len();
        self.instances.push(LoxInstance::new(class));
        r
    }
}

/// The heap after the method `method` has been bound to the instance
/// `instance`: a new environment inside the method's closure that binds
/// `this` to the instance, and a new function like the method that closes
/// over that environment.  Nothing else differs.
pub open spec fn bound<'a>(after: Heap<'a>, before: Heap<'a>, method: int, instance: usize) -> bool {
    let frame = before.environments@.len() as int;
    &&& after.classes == before.classes
    &&& after.instances == before.instances
    &&& after.environments@.len() == frame + 1
    &&& forall|i: int| 0 <= i < frame ==> after.environments@[i] == before.environments@[i]
    &&& after.environments@[frame].enclosing == Some(before.functions@[method].closure)
    &&& after.environments@[frame].values@ == Map::<Seq<char>, RuntimeValue>::empty().insert(
        "this"@,
        RuntimeValue::LoxInstance(instance),
    )
    &&& after.functions@ == before.functions@.push(
        LoxFunction {
            declaration: before.functions@[method].declaration,
            closure: frame as usize,
            is_initializer: before.functions@[method].is_initializer,
        },
    )
}

/// The arity of a class: that of its initializer, or 0 without one.
pub open spec fn class_arity<'a>(heap: Heap<'a>, class: int) -> nat {
    if heap.classes@[class].methods@.contains_key("init"@) {
        heap.functions@[heap.classes@[class].methods@["init"@] as int].declaration.params@.len()
    } else {
        0
    }
}

/// The arity of a callable.
pub open spec fn arity_of<'a>(heap: Heap<'a>, callable: LoxCallable) -> nat {
    match callable {
        LoxCallable::LoxFunction(f) => heap.functions@[f as int].declaration.params@.len(),
        LoxCallable::LoxClass(c) => class_arity(heap, c as int),
        LoxCallable::Clock(_) => 0,
    }
}

/// How a value that is no number is printed; a number is written by the
/// host.
pub open spec fn text_of<'a>(heap: Heap<'a>, value: RuntimeValue) -> Option<Seq<char>> {
    match value {
        RuntimeValue::Nil => Some("nil"@),
        RuntimeValue::Boolean(b) => Some(
            if b {
                "true"@
            } else {
                "false"@
            },
        ),
        RuntimeValue::Number(_) => None,
        RuntimeValue::String(s) => Some(s@),
        RuntimeValue::LoxCallable(LoxCallable::LoxFunction(f)) => Some(
            "<fn "@ + heap.functions@[f as int].declaration.name.lexeme@ + ">"@,
        ),
        RuntimeValue::LoxCallable(LoxCallable::LoxClass(c)) => Some(heap.classes@[c as int].name@),
        RuntimeValue::LoxCallable(LoxCallable::Clock(_)) => Some("<fn clock>"@),
        RuntimeValue::LoxInstance(i) => Some(
            heap.classes@[heap.instances@[i as int].class as int].name@ + " instance"@,
        ),
    }
}

impl<'a> Heap<'a> {
    /// Binds a method to an instance: the function that is the method with
    /// `this` bound to the instance.
    pub fn bind_method(&mut self, method: usize, instance: usize) -> (r: usize)
        requires
            old(self).wf(),
            method < old(self).functions@.len(),
            instance < old(self).instances@.len(),
        ensures
            final(self).wf(),
            r == old(self).functions@.len(),
            bound(*final(self), *old(self), method as int, instance),
    {
        let closure = self.functions[method].closure;
        let declaration = self.functions[method].declaration;
        let is_initializer = self.functions[method].is_initializer;
        let frame = self.enclose(closure);
        self.bind(frame, String::from_str("this"), RuntimeValue::LoxInstance(instance));
        self.add_function(LoxFunction::new(declaration, frame, is_initializer))
    }

    /// Reads a property of an instance: a field, or else a method of the
    /// class, bound to the instance.
    pub fn get_property(&mut self, instance: usize, name: &Token) -> (r: Result<
        RuntimeValue,
        RuntimeError,
    >)
        requires
            old(self).wf(),
            instance < old(self).instances@.len(),
        ensures
            final(self).wf(),
            ({
                let object = old(self).instances@[instance as int];
                let class = old(self).classes@[object.class as int];
                if object.fields@.contains_key(name.lexeme@) {
                    &&& r == Ok::<RuntimeValue, RuntimeError>(object.fields@[name.lexeme@])
                    &&& *final(self) == *old(self)
                } else if class.methods@.contains_key(name.lexeme@) {
                    &&& r == Ok::<RuntimeValue, RuntimeError>(
                        RuntimeValue::LoxCallable(
                            LoxCallable::LoxFunction(old(self).functions@.len() as usize),
                        ),
                    )
                    &&& bound(
                        *final(self),
                        *old(self),
                        class.methods@[name.lexeme@] as int,
                        instance,
                    )
                } else {
                    &&& r == Err::<RuntimeValue, RuntimeError>(
                        RuntimeError::UndefinedProperty { name: *name },
                    )
                    &&& *final(self) == *old(self)
                }
            }),
            final(self).value_ok(r->Ok_0) || r is Err,
    {
        match self.instances[instance].field(name.lexeme.as_str()) {
            Some(value) => {
                return Ok(value);
            },
            None => {},
        }
        let class = self.instances[instance].class;
        match self.classes[class].find_method(name.lexeme.as_str()) {
            Some(method) => {
                let function = self.bind_method(method, instance);
                Ok(RuntimeValue::LoxCallable(LoxCallable::LoxFunction(function)))
            },
            None => Err(RuntimeError::UndefinedProperty { name: name.clone() }),
        }
    }

    /// Sets a field of an instance, creating it if it is not there.
    pub fn set_property(&mut self, instance: usize, name: Token, value: RuntimeValue)
        requires
            old(self).wf(),
            instance < old(self).instances@.len(),
            old(self).value_ok(value),
        ensures
            final(self).wf(),
            final(self).environments == old(self).environments,
            final(self).functions == old(self).functions,
            final(self).classes == old(self).classes,
            final(self).instances@.len() == old(self).instances@.len(),
            final(self).instances@[instance as int].class == old(self).instances@[instance as int].class,
            final(self).instances@[instance as int].fields@ == old(
                self,
            ).instances@[instance as int].fields@.insert(name.lexeme@, value),
            forall|i: int|
                0 <= i < old(self).instances@.len() && i != instance ==> final(self).instances@[i]
                    == old(self).instances@[i],
    {
        self.instances[instance].set(name, value);
    }

    /// The arity of a callable.
    pub fn arity(&self, callable: &LoxCallable) -> (r: usize)
        requires
            self.wf(),
            self.value_ok(RuntimeValue::LoxCallable(*callable)),
        ensures
            r == arity_of(*self, *callable),
    {
        match callable {
            LoxCallable::LoxFunction(f) => self.functions[*f].arity(),
            LoxCallable::LoxClass(c) => match self.classes[*c].find_method("init") {
                Some(initializer) => self.functions[initializer].arity(),
                None => 0,
            },
            LoxCallable::Clock(_) => 0,
        }
    }

    /// How a value that is no number is printed; `None` for a number,
    /// which the host writes.
    pub fn stringify(&self, value: &RuntimeValue) -> (r: Option<String>)
        requires
            self.wf(),
            self.value_ok(*value),
        ensures
            match text_of(*self, *value) {
                Some(text) => r matches Some(s) && s@ == text,
                None => r is None,
            },
    {
        match value {
            RuntimeValue::Nil => Some(String::from_str("nil")),
            RuntimeValue::Boolean(b) => Some(
                if *b {
                    String::from_str("true")
                } else {
                    String::from_str("false")
                },
            ),
            RuntimeValue::Number(_) => None,
            RuntimeValue::String(s) => Some(s.clone()),
            RuntimeValue::LoxCallable(LoxCallable::LoxFunction(f)) => Some(
                self.functions[*f].to_string(),
            ),
            RuntimeValue::LoxCallable(LoxCallable::LoxClass(c)) => Some(
                self.classes[*c].to_string(),
            ),
            RuntimeValue::LoxCallable(LoxCallable::Clock(_)) => Some(
                String::from_str("<fn clock>"),
            ),
            RuntimeValue::LoxInstance(i) => {
                let mut text = self.classes[self.instances[*i].class].to_string();
                text.append(" instance");
                Some(text)
            },
        }
    }
}

} // verus!
