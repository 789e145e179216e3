//! Environments: frames of bindings, each with a link to the frame that
//! encloses it.  The frames live in the heap and are known by their
//! handles, so that closures can share them.
use vstd::prelude::*;
use vstd::hash_map::StringHashMap;
use crate::heap::Heap;
use crate::runtime_value::{RuntimeError, RuntimeValue};
use crate::token::Token;

verus! {

/// A frame: its bindings and the handle of the frame that encloses it.
pub struct Environment {
    pub enclosing: Option<usize>,
    pub values: StringHashMap<RuntimeValue>,
}

/// The frame reached from `this` over `distance` links, if the chain is
/// that long.
pub open spec fn ancestor_of(frames: Seq<Environment>, this: int, distance: nat) -> Option<int>
    decreases distance,
{
    if distance == 0 {
        Some(this)
    } else if 0 <= this < frames.len() {
        match frames[this].enclosing {
            Some(e) => ancestor_of(frames, e as int, (distance - 1) as nat),
            None => None,
        }
    } else {
        None
    }
}

/// The nearest frame on the chain from `this` outwards that binds `name`.
pub open spec fn binder_of(frames: Seq<Environment>, this: int, name: Seq<char>) -> Option<int>
    decreases this,
{
    if 0 <= this < frames.len() {
        if frames[this].values@.contains_key(name) {
            Some(this)
        } else {
            match frames[this].enclosing {
                Some(e) => if e < this {
                    binder_of(frames, e as int, name)
                } else {
                    None
                },
                None => None,
            }
        }
    } else {
        None
    }
}

/// What reading `name` in the frame `at` gives.
pub open spec fn read(frames: Seq<Environment>, at: int, name: Token) -> Result<
    RuntimeValue,
    RuntimeError,
> {
    if frames[at].values@.contains_key(name.lexeme@) {
        Ok(frames[at].values@[name.lexeme@])
    } else {
        Err(RuntimeError::UndefinedVariable { name })
    }
}

/// The frames after `name` has been bound to `value` in the frame `at`:
/// that binding is new or changed, and nothing else.
pub open spec fn written(
    after: Seq<Environment>,
    before: Seq<Environment>,
    at: int,
    name: Seq<char>,
    value: RuntimeValue,
) -> bool {
    &&& after.len() == before.len()
    &&& 0 <= at < before.len()
    &&& after[at].enclosing == before[at].enclosing
    &&& after[at].values@ == before[at].values@.insert(name, value)
    &&& forall|i: int| 0 <= i < before.len() && i != at ==> after[i] == before[i]
}

impl Environment {
    /// A frame without bindings that nothing encloses.
    pub fn new() -> (r: Self)
        ensures
            r.enclosing is None,
            r.values@ == Map::<Seq<char>, RuntimeValue>::empty(),
    {
        Environment { enclosing: None, values: StringHashMap::new() }
    }

    /// A frame without bindings inside the frame `enclosing`.
    pub fn enclosed(enclosing: usize) -> (r: Self)
        ensures
            r.enclosing == Some(enclosing),
            r.values@ == Map::<Seq<char>, RuntimeValue>::empty(),
    {
        Environment { enclosing: Some(enclosing), values: StringHashMap::new() }
    }

    /// Binds `name` to `value` in this frame, whether or not it was bound.
    pub fn define(&mut self, name: String, value: RuntimeValue)
        ensures
            final(self).enclosing == old(self).enclosing,
            final(self).values@ == old(self).values@.insert(name@, value),
    {
        self.values.insert(name, value);
    }

    /// The frame reached from `this` over `distance` links, or `None` if
    /// the chain is shorter.
    pub fn ancestor(heap: &Heap, this: usize, distance: usize) -> (r: Option<usize>)
        requires
            heap.wf(),
            this < heap.environments@.len(),
        ensures
            match r {
                Some(frame) => frame < heap.environments@.len() && ancestor_of(
                    heap.environments@,
                    this as int,
                    distance as nat,
                ) == Some(frame as int),
                None => ancestor_of(heap.environments@, this as int, distance as nat) is None,
            },
    {
        let mut frame = this;
        let mut left = distance;
        while left > 0
            invariant
                heap.wf(),
                frame < heap.environments@.len(),
                ancestor_of(heap.environments@, frame as int, left as nat) == ancestor_of(
                    heap.environments@,
                    this as int,
                    distance as nat,
                ),
            decreases left,
        {
            match heap.environments[frame].enclosing {
                Some(e) => {
                    frame = e;
                },
                None => {
                    return None;
                },
            }
            left = left - 1;
        }
        Some(frame)
    }

    /// Reads `name` in the frame `distance` links out from `this`, and in no
    /// other frame.
    pub fn get_at(heap: &Heap, this: usize, distance: usize, name: &Token) -> (r: Result<
        RuntimeValue,
        RuntimeError,
    >)
        requires
            heap.wf(),
            this < heap.environments@.len(),
            ancestor_of(heap.environments@, this as int, distance as nat) is Some,
        ensures
            r == read(
                heap.environments@,
                ancestor_of(heap.environments@, this as int, distance as nat)->0,
                *name,
            ),
    {
        match Self::ancestor(heap, this, distance) {
            Some(frame) => match heap.environments[frame].values.get(name.lexeme.as_str()) {
                Some(value) => Ok(value.clone()),
                None => Err(RuntimeError::UndefinedVariable { name: name.clone() }),
            },
            None => Err(RuntimeError::UndefinedVariable { name: name.clone() }),
        }
    }

    /// The nearest frame from `this` outwards that binds `name`.
    pub fn binder(heap: &Heap, this: usize, name: &str) -> (r: Option<usize>)
        requires
            heap.wf(),
            this < heap.environments@.len(),
        ensures
            match r {
                Some(frame) => frame < heap.environments@.len() && binder_of(
                    heap.environments@,
                    this as int,
                    name@,
                ) == Some(frame as int) && heap.environments@[frame as int].values@.contains_key(
                    name@,
                ),
                None => binder_of(heap.environments@, this as int, name@) is None,
            },
    {
        let mut frame = this;
        loop
            invariant
                heap.wf(),
                frame < heap.environments@.len(),
                binder_of(heap.environments@, frame as int, name@) == binder_of(
                    heap.environments@,
                    this as int,
                    name@,
                ),
            decreases frame,
        {
            if heap.environments[frame].values.contains_key(name) {
                return Some(frame);
            }
            match heap.environments[frame].enclosing {
                Some(e) => {
                    frame = e;
                },
                None => {
                    return None;
                },
            }
        }
    }

    /// Reads `name` in the nearest frame from `this` outwards that binds it.
    pub fn get(heap: &Heap, this: usize, name: &Token) -> (r: Result<RuntimeValue, RuntimeError>)
        requires
            heap.wf(),
            this < heap.environments@.len(),
        ensures
            r == match binder_of(heap.environments@, this as int, name.lexeme@) {
                Some(frame) => Ok::<RuntimeValue, RuntimeError>(
                    heap.environments@[frame].values@[name.lexeme@],
                ),
                None => Err(RuntimeError::UndefinedVariable { name: *name }),
            },
    {
        match Self::binder(heap, this, name.lexeme.as_str()) {
            Some(frame) => match heap.environments[frame].values.get(name.lexeme.as_str()) {
                Some(value) => Ok(value.clone()),
                None => Err(RuntimeError::UndefinedVariable { name: name.clone() }),
            },
            None => Err(RuntimeError::UndefinedVariable { name: name.clone() }),
        }
    }

    /// Changes the binding of `name` in the frame `distance` links out from
    /// `this`, and in no other frame; a name that is not bound there is an
    /// error.
    pub fn assign_at(
        heap: &mut Heap,
        this: usize,
        distance: usize,
        name: Token,
        value: RuntimeValue,
    ) -> (r: Result<(), RuntimeError>)
        requires
            old(heap).wf(),
            this < old(heap).environments@.len(),
            ancestor_of(old(heap).environments@, this as int, distance as nat) is Some,
            old(heap).value_ok(value),
        ensures
            final(heap).wf(),
            ({
                let frames = old(heap).environments@;
                let at = ancestor_of(frames, this as int, distance as nat)->0;
                if frames[at].values@.contains_key(name.lexeme@) {
                    &&& r is Ok
                    &&& final(heap).same_but_environments(old(heap))
                    &&& written(final(heap).environments@, frames, at, name.lexeme@, value)
                } else {
                    &&& r == Err::<(), RuntimeError>(RuntimeError::UndefinedVariable { name })
                    &&& *final(heap) == *old(heap)
                }
            }),
    {
        match Self::ancestor(heap, this, distance) {
            Some(frame) => {
                if heap.environments[frame].values.contains_key(name.lexeme.as_str()) {
                    heap.bind(frame, name.lexeme, value);
                    Ok(())
                } else {
                    Err(RuntimeError::UndefinedVariable { name })
                }
            },
            None => Err(RuntimeError::UndefinedVariable { name }),
        }
    }

    /// Changes the binding of `name` in the nearest frame from `this`
    /// outwards that binds it; a name that no frame binds is an error.
    pub fn assign(heap: &mut Heap, this: usize, name: Token, value: RuntimeValue) -> (r: Result<
        (),
        RuntimeError,
    >)
        requires
            old(heap).wf(),
            this < old(heap).environments@.len(),
            old(heap).value_ok(value),
        ensures
            final(heap).wf(),
            ({
                let frames = old(heap).environments@;
                match binder_of(frames, this as int, name.lexeme@) {
                    Some(at) => {
                        &&& r is Ok
                        &&& final(heap).same_but_environments(old(heap))
                        &&& written(final(heap).environments@, frames, at, name.lexeme@, value)
                    },
                    None => {
                        &&& r == Err::<(), RuntimeError>(RuntimeError::UndefinedVariable { name })
                        &&& *final(heap) == *old(heap)
                    },
                }
            }),
    {
        match Self::binder(heap, this, name.lexeme.as_str()) {
            Some(frame) => {
                heap.bind(frame, name.lexeme, value);
                Ok(())
            },
            None => Err(RuntimeError::UndefinedVariable { name }),
        }
    }
}

/// A write changes no link: the chains are what they were.
pub proof fn lemma_written_keeps_chains(
    after: Seq<Environment>,
    before: Seq<Environment>,
    at: int,
    name: Seq<char>,
    value: RuntimeValue,
    this: int,
    distance: nat,
)
    requires
        written(after, before, at, name, value),
    ensures
        ancestor_of(after, this, distance) == ancestor_of(before, this, distance),
    decreases distance,
{
    if distance > 0 && 0 <= this < before.len() {
        match before[this].enclosing {
            Some(e) => {
                lemma_written_keeps_chains(
                    after,
                    before,
                    at,
                    name,
                    value,
                    e as int,
                    (distance - 1) as nat,
                );
            },
            None => {},
        }
    }
}

/// Frames are shared, not copied: what is written to a frame through one
/// chain is what is read of it through any chain that reaches the frame,
/// such as the chain of a closure that was made before the write.
pub proof fn lemma_written_is_seen(
    after: Seq<Environment>,
    before: Seq<Environment>,
    at: int,
    name: Token,
    value: RuntimeValue,
    this: int,
    distance: nat,
)
    requires
        written(after, before, at, name.lexeme@, value),
        ancestor_of(before, this, distance) == Some(at),
    ensures
        ancestor_of(after, this, distance) == Some(at),
        read(after, at, name) == Ok::<RuntimeValue, RuntimeError>(value),
{
    lemma_written_keeps_chains(after, before, at, name.lexeme@, value, this, distance);
}

/// A write to one name leaves the other names of all frames as they were.
pub proof fn lemma_written_elsewhere(
    after: Seq<Environment>,
    before: Seq<Environment>,
    at: int,
    name: Seq<char>,
    value: RuntimeValue,
    frame: int,
    other: Token,
)
    requires
        written(after, before, at, name, value),
        0 <= frame < before.len(),
        frame != at || other.lexeme@ != name,
    ensures
        read(after, frame, other) == read(before, frame, other),
{
}

} // verus!
