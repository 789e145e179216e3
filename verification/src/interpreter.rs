//! The evaluator, as a machine that the host drives.
//!
//! The machine walks the statements with an explicit stack of what is left
//! to do.  [`Interpreter::step`] makes one move and says what it needs of
//! the host: nothing, a line printed, or a number or a text that only the
//! host can compute, which the host then hands in with
//! [`Interpreter::number`] or [`Interpreter::text`].
use vstd::prelude::*;
use vstd::hash_map::StringHashMap;
use std::collections::HashMap;
use crate::ast::expr::{
    AssignmentExpr, BinaryExpr, BinaryExprOp, CallExpr, Expr, GetExpr, LogicalExpr, SetExpr,
    UnaryExpr, UnaryExprOp,
};
use crate::ast::stmt::{ClassStmt, FunctionStmt, IfStmt, Stmt, VariableStmt, WhileStmt};
use crate::environment::{ancestor_of, binder_of, read, Environment};
use crate::heap::{arity_of, bound, text_of, value_within, Heap, GLOBALS};
use crate::lox_callable::{Clock, LoxCallable};
use crate::lox_class::LoxClass;
use crate::lox_function::LoxFunction;
use crate::number::{less, less_equal, negate, negated, number_le, number_lt, number_text, printed};
use crate::runtime_value::{numeral, numeral_of, RuntimeError, RuntimeValue};
use crate::string::text_eq;
use crate::token::Token;
use crate::token_type::TokenType;

verus! {

/// What the machine needs of the host after a step.
#[derive(Debug, PartialEq)]
pub enum Action {
    /// Nothing: step again.
    Continue,
    /// Write the line to standard output, then step again.
    Print(String),
    /// Hand in the seconds since the Unix epoch as a double.
    Clock,
    /// Hand in the result of the operator on the two doubles.
    Arithmetic(BinaryExprOp, u64, u64),
    /// Hand in the double that the numeral writes.
    Decode(String),
    /// Hand in the text that writes the double.
    Format(u64),
    /// The statements are done.
    Finished,
    /// A runtime error ended the statements.
    Failed(RuntimeError),
}

/// What the machine is about to do.
pub enum Control<'a> {
    /// Nothing is left to do.
    Idle,
    Execute(&'a Stmt),
    Evaluate(&'a Expr),
    /// An expression has been evaluated to this value.
    Value(RuntimeValue),
    /// A statement has been executed.
    Completed,
    /// A `return` with this value is on its way to its function.
    Returning(RuntimeValue),
    /// The host owes a number.
    AwaitNumber,
    /// The host owes a text.
    AwaitText,
}

/// What is left to do once the control is done with its part.
pub enum Frame<'a> {
    /// The left operand of `and` or `or` is being evaluated.
    Logical(&'a LogicalExpr),
    Unary(&'a UnaryExpr),
    /// The left operand is being evaluated.
    BinaryLeft(&'a BinaryExpr),
    /// The right operand is being evaluated; the left has this value.
    BinaryRight(&'a BinaryExpr, RuntimeValue),
    /// The callee is being evaluated.
    Callee(&'a CallExpr),
    /// An argument is being evaluated; the callee and the arguments before
    /// it have these values.
    Argument(&'a CallExpr, RuntimeValue, Vec<RuntimeValue>),
    Assign(&'a AssignmentExpr),
    Get(&'a GetExpr),
    /// The object of a property write is being evaluated.
    SetObject(&'a SetExpr),
    /// The value of a write to a property of this instance is being
    /// evaluated.
    SetValue(&'a SetExpr, usize),
    /// The value of an expression statement.
    Discard,
    /// The value of a `print`.
    Print,
    Define(&'a VariableStmt),
    Branch(&'a IfStmt),
    /// The condition of a `while` is being evaluated.
    Loop(&'a WhileStmt),
    /// The body of a `while` is being executed.
    Again(&'a WhileStmt),
    /// The value of a `return`.
    Return,
    /// The statement before this index of the list is being executed.
    Sequence(&'a Vec<Stmt>, usize),
    /// A block is being executed; this was the environment around it.
    Restore(usize),
    /// The body of this function is being executed; this was the
    /// environment of the call.
    Call(usize, usize),
    /// The initializer of this new instance is being called.
    Construct(usize),
}

/// What a binary operator makes of two values: a value, an operation on
/// doubles that the host computes, or an error.
pub enum Computed {
    Boolean(bool),
    Text(Seq<char>),
    Arithmetic(BinaryExprOp, u64, u64),
    Invalid,
}

/// What a binary operator makes of two values.
pub enum Outcome {
    Value(RuntimeValue),
    Arithmetic(BinaryExprOp, u64, u64),
    Invalid,
}

/// What a binary operator makes of two values.
pub open spec fn binary_result(op: BinaryExprOp, left: RuntimeValue, right: RuntimeValue) -> Computed {
    match op {
        BinaryExprOp::EqualEqual => Computed::Boolean(left.equals(&right)),
        BinaryExprOp::NotEqual => Computed::Boolean(!left.equals(&right)),
        BinaryExprOp::Plus => match (left, right) {
            (RuntimeValue::Number(a), RuntimeValue::Number(b)) => Computed::Arithmetic(op, a, b),
            (RuntimeValue::String(a), RuntimeValue::String(b)) => Computed::Text(a@ + b@),
            _ => Computed::Invalid,
        },
        _ => match (left, right) {
            (RuntimeValue::Number(a), RuntimeValue::Number(b)) => match op {
                BinaryExprOp::Less => Computed::Boolean(number_lt(a, b)),
                BinaryExprOp::LessEqual => Computed::Boolean(number_le(a, b)),
                BinaryExprOp::Greater => Computed::Boolean(number_lt(b, a)),
                BinaryExprOp::GreaterEqual => Computed::Boolean(number_le(b, a)),
                _ => Computed::Arithmetic(op, a, b),
            },
            _ => Computed::Invalid,
        },
    }
}

/// Whether `and` or `or` is decided by its left operand alone: `or` by a
/// truthy one, `and` by one that is not.
pub open spec fn short_circuits(operator: Token, left: RuntimeValue) -> bool {
    if operator.token_type is Or {
        left.truthy()
    } else {
        !left.truthy()
    }
}

/// What a call of a function results in once its body is done: for an
/// initializer the receiver, whatever the body returned; else what the body
/// returned, or `nil` if it returned nothing.  `None` stands for the error
/// of an initializer whose closure does not bind `this`.
pub open spec fn call_result<'a>(heap: Heap<'a>, function: int, returned: Option<RuntimeValue>) -> Option<
    RuntimeValue,
> {
    let closure = heap.functions@[function].closure as int;
    if heap.functions@[function].is_initializer {
        if heap.environments@[closure].values@.contains_key("this"@) {
            Some(heap.environments@[closure].values@["this"@])
        } else {
            None
        }
    } else {
        match returned {
            Some(value) => Some(value),
            None => Some(RuntimeValue::Nil),
        }
    }
}

/// Whether the handles in a frame of the stack are good for a heap of
/// these sizes.
pub open spec fn frame_within<'a>(
    frame: Frame<'a>,
    environments: nat,
    functions: nat,
    classes: nat,
    instances: nat,
) -> bool {
    match frame {
        Frame::BinaryRight(_, left) => value_within(left, functions, classes, instances),
        Frame::Argument(call, callee, arguments) => {
            &&& value_within(callee, functions, classes, instances)
            &&& forall|i: int|
                0 <= i < arguments@.len() ==> value_within(
                    #[trigger] arguments@[i],
                    functions,
                    classes,
                    instances,
                )
            &&& arguments@.len() < call.arguments@.len()
        },
        Frame::SetValue(_, instance) => instance < instances,
        Frame::Restore(environment) => environment < environments,
        Frame::Call(function, previous) => function < functions && previous < environments,
        Frame::Construct(instance) => instance < instances,
        _ => true,
    }
}

/// The evaluator: the heap, the current environment, the distances that
/// the resolver found, and what is left to do.
pub struct Interpreter<'a> {
    /// The handle of the global environment.
    pub globals: usize,
    pub heap: Heap<'a>,
    pub environment: usize,
    pub locals: HashMap<usize, usize>,
    pub stack: Vec<Frame<'a>>,
    pub control: Control<'a>,
}

impl<'a> Interpreter<'a> {
    /// Whether the handles in a frame of the stack are good.
    pub open spec fn frame_ok(&self, frame: Frame<'a>) -> bool {
        frame_within(
            frame,
            self.heap.environments@.len(),
            self.heap.functions@.len(),
            self.heap.classes@.len(),
            self.heap.instances@.len(),
        )
    }

    /// Every handle in the machine is good.
    pub open spec fn wf(&self) -> bool {
        &&& self.heap.wf()
        &&& self.globals == GLOBALS
        &&& self.environment < self.heap.environments@.len()
        &&& forall|i: int| 0 <= i < self.stack@.len() ==> self.frame_ok(#[trigger] self.stack@[i])
        &&& match self.control {
            Control::Value(value) => self.heap.value_ok(value),
            Control::Returning(value) => self.heap.value_ok(value),
            _ => true,
        }
    }

    /// The host owes the machine a number or a text.
    pub open spec fn awaiting(&self) -> bool {
        self.control is AwaitNumber || self.control is AwaitText
    }

    /// The machine has nothing left to do.
    pub open spec fn idle(&self) -> bool {
        self.control is Idle && self.stack@.len() == 0 && self.environment == self.globals
    }

    /// The heap has grown from that of `before`, or is the same: what was
    /// there is there, but for the bindings of environments and the fields
    /// of instances, which may have changed; the links between
    /// environments have not.  The distances are those of `before`.
    pub open spec fn grown_from(&self, before: &Interpreter<'a>) -> bool {
        &&& self.heap.environments@.len() >= before.heap.environments@.len()
        &&& self.heap.functions@.len() >= before.heap.functions@.len()
        &&& self.heap.classes@.len() >= before.heap.classes@.len()
        &&& self.heap.instances@.len() >= before.heap.instances@.len()
        &&& forall|i: int|
            0 <= i < before.heap.environments@.len() ==> (
            #[trigger] self.heap.environments@[i]).enclosing
                == before.heap.environments@[i].enclosing
        &&& forall|i: int|
            0 <= i < before.heap.functions@.len() ==> #[trigger] self.heap.functions@[i]
                == before.heap.functions@[i]
        &&& self.locals == before.locals
        &&& self.globals == before.globals
    }

    /// A machine with nothing to do, whose global environment binds
    /// `clock` to the native clock.
    pub fn new() -> (r: Self)
        ensures
            r.wf(),
            r.idle(),
            r.locals@ == Map::<usize, usize>::empty(),
            r.heap.functions@.len() == 0,
            r.heap.classes@.len() == 0,
            r.heap.instances@.len() == 0,
            r.heap.environments@.len() == 1,
            r.heap.environments@[0].enclosing is None,
            r.heap.environments@[0].values@ == Map::<Seq<char>, RuntimeValue>::empty().insert(
                "clock"@,
                RuntimeValue::LoxCallable(LoxCallable::Clock(Clock)),
            ),
    {
        let mut heap = Heap::new();
        heap.bind(
            GLOBALS,
            String::from_str("clock"),
            RuntimeValue::LoxCallable(LoxCallable::Clock(Clock)),
        );
        Interpreter {
            globals: GLOBALS,
            heap,
            environment: GLOBALS,
            locals: HashMap::new(),
            stack: Vec::new(),
            control: Control::Idle,
        }
    }

    /// Records the distance that the resolver found for an expression.
    /// The first distance recorded for an expression stays.
    pub fn resolve(&mut self, id: usize, depth: usize)
        requires
            old(self).wf(),
        ensures
            final(self).wf(),
            final(self).locals@ == if old(self).locals@.contains_key(id) {
                old(self).locals@
            } else {
                old(self).locals@.insert(id, depth)
            },
            final(self).heap == old(self).heap,
            final(self).environment == old(self).environment,
            final(self).stack == old(self).stack,
            final(self).control == old(self).control,
            final(self).globals == old(self).globals,
    {
        broadcast use vstd::std_specs::hash::group_hash_axioms;

        if !self.locals.contains_key(&id) {
            self.locals.insert(id, depth);
        }
    }

    /// Takes up the statements: they are what is left to do.
    pub fn interpret(&mut self, statements: &'a Vec<Stmt>)
        requires
            old(self).wf(),
            old(self).idle(),
        ensures
            final(self).wf(),
            final(self).grown_from(old(self)),
            final(self).heap == old(self).heap,
            final(self).environment == old(self).environment,
            final(self).control is Completed,
            final(self).stack@ == seq![Frame::Sequence(statements, 0)],
    {
        self.stack.push(Frame::Sequence(statements, 0));
        self.control = Control::Completed;
    }

    /// Takes up the statements of a block in the given environment; once
    /// they are done, the environment is what it is now.
    pub fn execute_block(&mut self, statements: &'a Vec<Stmt>, environment: usize)
        requires
            old(self).wf(),
            environment < old(self).heap.environments@.len(),
        ensures
            final(self).wf(),
            final(self).grown_from(old(self)),
            final(self).heap == old(self).heap,
            final(self).environment == environment,
            final(self).control is Completed,
            final(self).stack@ == old(self).stack@.push(Frame::Restore(old(self).environment)).push(
                Frame::Sequence(statements, 0),
            ),
    {
        self.stack.push(Frame::Restore(self.environment));
        self.stack.push(Frame::Sequence(statements, 0));
        self.environment = environment;
        self.control = Control::Completed;
    }

    /// Ends the statements with an error: nothing is left to do, and the
    /// environment is the global one again.
    fn fail(&mut self, error: RuntimeError) -> (r: Action)
        requires
            old(self).wf(),
        ensures
            final(self).wf(),
            final(self).fits(r),
            final(self).idle(),
            final(self).heap == old(self).heap,
            final(self).locals == old(self).locals,
            final(self).globals == old(self).globals,
            r == Action::Failed(error),
    {
        self.stack.clear();
        self.environment = self.globals;
        self.control = Control::Idle;
        Action::Failed(error)
    }

    /// Goes on with the value of an expression.
    fn give(&mut self, value: RuntimeValue) -> (r: Action)
        requires
            old(self).wf(),
            old(self).heap.value_ok(value),
        ensures
            final(self).wf(),
            final(self).fits(r),
            final(self).control == Control::<'a>::Value(value),
            final(self).heap == old(self).heap,
            final(self).stack == old(self).stack,
            final(self).environment == old(self).environment,
            final(self).locals == old(self).locals,
            final(self).globals == old(self).globals,
            r is Continue,
    {
        self.control = Control::Value(value);
        Action::Continue
    }

    /// Reads a variable: at the distance that the resolver found for the
    /// expression, or in the global environment if it found none.
    fn look_up_variable(&self, name: &Token, expr_id: usize) -> (r: Result<
        RuntimeValue,
        RuntimeError,
    >)
        requires
            self.wf(),
        ensures
            r matches Ok(value) ==> self.heap.value_ok(value),
            r == if self.locals@.contains_key(expr_id) {
                match ancestor_of(
                    self.heap.environments@,
                    self.environment as int,
                    self.locals@[expr_id] as nat,
                ) {
                    Some(frame) => read(self.heap.environments@, frame, *name),
                    None => Err(RuntimeError::UndefinedVariable { name: *name }),
                }
            } else {
                match binder_of(self.heap.environments@, self.globals as int, name.lexeme@) {
                    Some(frame) => Ok::<RuntimeValue, RuntimeError>(
                        self.heap.environments@[frame].values@[name.lexeme@],
                    ),
                    None => Err(RuntimeError::UndefinedVariable { name: *name }),
                }
            },
    {
        broadcast use vstd::std_specs::hash::group_hash_axioms;

        match self.locals.get(&expr_id) {
            Some(distance) => {
                match Environment::ancestor(&self.heap, self.environment, *distance) {
                    Some(_) => Environment::get_at(&self.heap, self.environment, *distance, name),
                    None => Err(RuntimeError::UndefinedVariable { name: name.clone() }),
                }
            },
            None => Environment::get(&self.heap, self.globals, name),
        }
    }

    /// What a binary operator makes of two values.
    pub fn visit_binary_expr(op: BinaryExprOp, left: &RuntimeValue, right: &RuntimeValue) -> (r:
        Outcome)
        ensures
            match binary_result(op, *left, *right) {
                Computed::Boolean(b) => r == Outcome::Value(RuntimeValue::Boolean(b)),
                Computed::Text(text) => r matches Outcome::Value(RuntimeValue::String(s)) && s@
                    == text,
                Computed::Arithmetic(o, a, b) => r == Outcome::Arithmetic(o, a, b),
                Computed::Invalid => r is Invalid,
            },
    {
        match op {
            BinaryExprOp::EqualEqual => Outcome::Value(RuntimeValue::Boolean(left.is_equal(right))),
            BinaryExprOp::NotEqual => Outcome::Value(RuntimeValue::Boolean(!left.is_equal(right))),
            BinaryExprOp::Plus => match (left, right) {
                (RuntimeValue::Number(a), RuntimeValue::Number(b)) => Outcome::Arithmetic(
                    op,
                    *a,
                    *b,
                ),
                (RuntimeValue::String(a), RuntimeValue::String(b)) => {
                    let mut text = a.clone();
                    text.append(b.as_str());
                    Outcome::Value(RuntimeValue::String(text))
                },
                _ => Outcome::Invalid,
            },
            _ => match (left, right) {
                (RuntimeValue::Number(a), RuntimeValue::Number(b)) => match op {
                    BinaryExprOp::Less => Outcome::Value(RuntimeValue::Boolean(less(*a, *b))),
                    BinaryExprOp::LessEqual => Outcome::Value(
                        RuntimeValue::Boolean(less_equal(*a, *b)),
                    ),
                    BinaryExprOp::Greater => Outcome::Value(RuntimeValue::Boolean(less(*b, *a))),
                    BinaryExprOp::GreaterEqual => Outcome::Value(
                        RuntimeValue::Boolean(less_equal(*b, *a)),
                    ),
                    _ => Outcome::Arithmetic(op, *a, *b),
                },
                _ => Outcome::Invalid,
            },
        }
    }

    /// Whether `and` or `or` is decided by its left operand alone.
    pub fn visit_logical_expr(expr: &LogicalExpr, left: &RuntimeValue) -> (r: bool)
        ensures
            r == short_circuits(expr.operator, *left),
    {
        match expr.operator.token_type {
            TokenType::Or => left.is_truthy(),
            _ => !left.is_truthy(),
        }
    }

    /// What a unary operator makes of a value: `None` is the error of a
    /// `-` whose operand is no number.
    pub fn visit_unary_expr(op: UnaryExprOp, right: &RuntimeValue) -> (r: Option<RuntimeValue>)
        ensures
            r == match op {
                UnaryExprOp::Not => Some(RuntimeValue::Boolean(!right.truthy())),
                UnaryExprOp::Minus => match *right {
                    RuntimeValue::Number(n) => Some(RuntimeValue::Number(negated(n))),
                    _ => None,
                },
            },
    {
        match op {
            UnaryExprOp::Not => Some(RuntimeValue::Boolean(!right.is_truthy())),
            UnaryExprOp::Minus => match right {
                RuntimeValue::Number(n) => Some(RuntimeValue::Number(negate(*n))),
                _ => None,
            },
        }
    }
}

/// The bindings of the parameters of a call to its arguments, in order: a
/// later parameter of the same name takes the place of an earlier one.
pub open spec fn bound_params(params: Seq<Token>, arguments: Seq<RuntimeValue>) -> Map<
    Seq<char>,
    RuntimeValue,
>
    decreases params.len(),
{
    if params.len() == 0 || arguments.len() < params.len() {
        Map::empty()
    } else {
        bound_params(params.drop_last(), arguments).insert(
            params.last().lexeme@,
            arguments[params.len() - 1],
        )
    }
}

/// The methods of a class, each with the handle of its function, when the
/// function of the first method has the handle `first`: a later method of
/// the same name takes the place of an earlier one.
pub open spec fn method_table(methods: Seq<FunctionStmt>, first: int) -> Map<Seq<char>, usize>
    decreases methods.len(),
{
    if methods.len() == 0 {
        Map::empty()
    } else {
        method_table(methods.drop_last(), first).insert(
            methods.last().name.lexeme@,
            (first + methods.len() - 1) as usize,
        )
    }
}

impl<'a> Interpreter<'a> {
    /// What reading a variable gives: at the distance that the resolver
    /// found for the expression and nowhere else, or, if it found none, in
    /// the global environment.
    pub open spec fn looked_up(&self, name: Token, expr_id: usize) -> Result<
        RuntimeValue,
        RuntimeError,
    > {
        if self.locals@.contains_key(expr_id) {
            match ancestor_of(
                self.heap.environments@,
                self.environment as int,
                self.locals@[expr_id] as nat,
            ) {
                Some(frame) => read(self.heap.environments@, frame, name),
                None => Err(RuntimeError::UndefinedVariable { name }),
            }
        } else {
            match binder_of(self.heap.environments@, self.globals as int, name.lexeme@) {
                Some(frame) => Ok(self.heap.environments@[frame].values@[name.lexeme@]),
                None => Err(RuntimeError::UndefinedVariable { name }),
            }
        }
    }

    /// The frame in which an assignment writes, if the name is bound
    /// there: the frame at the distance that the resolver found for the
    /// expression, or, if it found none, the global environment.
    pub open spec fn target_of(&self, name: Token, expr_id: usize) -> Option<int> {
        let frames = self.heap.environments@;
        if self.locals@.contains_key(expr_id) {
            match ancestor_of(frames, self.environment as int, self.locals@[expr_id] as nat) {
                Some(frame) => if frames[frame].values@.contains_key(name.lexeme@) {
                    Some(frame)
                } else {
                    None
                },
                None => None,
            }
        } else {
            binder_of(frames, self.globals as int, name.lexeme@)
        }
    }

    /// The action fits the state: the machine waits for a number or a text
    /// exactly if the action asks for one, and it has nothing left to do
    /// if the action says that the statements are done or have failed.
    pub open spec fn fits(&self, r: Action) -> bool {
        &&& (r is Clock || r is Arithmetic || r is Decode) <==> self.control is AwaitNumber
        &&& r is Format <==> self.control is AwaitText
        &&& r is Finished || r is Failed ==> self.idle()
    }

    /// The end of a call as `before` saw it on top of its stack: the frame
    /// of the call is gone, the environment is that of the call again, and
    /// the call has its result; an initializer whose closure does not bind
    /// `this` is an error.
    pub open spec fn returned_to(
        &self,
        before: &Interpreter<'a>,
        function: int,
        previous: usize,
        returned: Option<RuntimeValue>,
        r: Action,
    ) -> bool {
        match call_result(before.heap, function, returned) {
            Some(value) => {
                &&& r is Continue
                &&& self.control == Control::<'a>::Value(value)
                &&& self.stack@ == before.stack@.drop_last()
                &&& self.environment == previous
            },
            None => {
                &&& r matches Action::Failed(RuntimeError::UndefinedVariable { name })
                &&& name.lexeme@ == "this"@
                &&& self.idle()
            },
        }
    }

    /// The machine is as `before` but for the control and the stack.
    pub open spec fn same_memory(&self, before: &Interpreter<'a>) -> bool {
        &&& self.heap == before.heap
        &&& self.environment == before.environment
        &&& self.locals == before.locals
        &&& self.globals == before.globals
    }

    /// Goes on with evaluating an expression.
    fn turn_to(&mut self, expr: &'a Expr) -> (r: Action)
        requires
            old(self).wf(),
        ensures
            final(self).wf(),
            final(self).fits(r),
            final(self).same_memory(old(self)),
            final(self).stack == old(self).stack,
            final(self).control == Control::Evaluate(expr),
            r is Continue,
    {
        self.control = Control::Evaluate(expr);
        Action::Continue
    }

    /// Goes on with executing a statement.
    fn turn_to_statement(&mut self, stmt: &'a Stmt) -> (r: Action)
        requires
            old(self).wf(),
        ensures
            final(self).wf(),
            final(self).fits(r),
            final(self).same_memory(old(self)),
            final(self).stack == old(self).stack,
            final(self).control == Control::Execute(stmt),
            r is Continue,
    {
        self.control = Control::Execute(stmt);
        Action::Continue
    }

    /// Goes on after a statement.
    fn done(&mut self) -> (r: Action)
        requires
            old(self).wf(),
        ensures
            final(self).wf(),
            final(self).fits(r),
            final(self).same_memory(old(self)),
            final(self).stack == old(self).stack,
            final(self).control is Completed,
            r is Continue,
    {
        self.control = Control::Completed;
        Action::Continue
    }

    /// Puts a frame on the stack.
    fn push(&mut self, frame: Frame<'a>)
        requires
            old(self).wf(),
            old(self).frame_ok(frame),
        ensures
            final(self).wf(),
            final(self).same_memory(old(self)),
            final(self).control == old(self).control,
            final(self).stack@ == old(self).stack@.push(frame),
    {
        self.stack.push(frame);
    }

    /// Writes a variable that is bound: at the distance that the resolver
    /// found for the expression, or in the global environment if it found
    /// none.
    fn visit_assignment_expr(&mut self, expr: &AssignmentExpr, value: RuntimeValue) -> (r: Result<
        (),
        RuntimeError,
    >)
        requires
            old(self).wf(),
            old(self).heap.value_ok(value),
        ensures
            final(self).wf(),
            final(self).grown_from(old(self)),
            final(self).heap.same_but_environments(&old(self).heap),
            final(self).stack == old(self).stack,
            final(self).environment == old(self).environment,
            final(self).control == old(self).control,
            match old(self).target_of(expr.name, expr.id) {
                Some(frame) => r is Ok && crate::environment::written(
                    final(self).heap.environments@,
                    old(self).heap.environments@,
                    frame,
                    expr.name.lexeme@,
                    value,
                ),
                None => r == Err::<(), RuntimeError>(
                    RuntimeError::UndefinedVariable { name: expr.name },
                ) && final(self).heap == old(self).heap,
            },
    {
        broadcast use vstd::std_specs::hash::group_hash_axioms;

        let distance = match self.locals.get(&expr.id) {
            Some(distance) => Some(*distance),
            None => None,
        };
        match distance {
            Some(distance) => {
                match Environment::ancestor(&self.heap, self.environment, distance) {
                    Some(_) => Environment::assign_at(
                        &mut self.heap,
                        self.environment,
                        distance,
                        expr.name.clone(),
                        value,
                    ),
                    None => Err(RuntimeError::UndefinedVariable { name: expr.name.clone() }),
                }
            },
            None => Environment::assign(&mut self.heap, self.globals, expr.name.clone(), value),
        }
    }

    /// The expression that was being evaluated has this value.
    pub open spec fn valued(&self, below: Seq<Frame<'a>>, value: RuntimeValue) -> bool {
        &&& self.control == Control::<'a>::Value(value)
        &&& self.stack@ == below
    }

    /// The part `next` of an expression is being evaluated, and `frame`
    /// says on the stack what is left to do of the expression.
    pub open spec fn descended(&self, before: &Interpreter<'a>, frame: Frame<'a>, next: Expr) -> bool {
        &&& self.control == Control::Evaluate(&next)
        &&& self.stack@ == before.stack@.push(frame)
    }

    /// What starting on an expression does: a literal that is no number, a
    /// variable and `this` have their value at once; a number literal is
    /// for the host to decode; of any other expression the first part is
    /// evaluated.
    pub open spec fn evaluated(&self, before: &Interpreter<'a>, expr: Expr, r: Action) -> bool {
        match expr {
            Expr::Literal(x) => match RuntimeValue::literal(&x) {
                Some(value) => r is Continue && self.valued(before.stack@, value),
                None => {
                    &&& r matches Action::Decode(text)
                    &&& text@ == numeral(&x)
                    &&& self.control is AwaitNumber
                    &&& self.stack == before.stack
                },
            },
            Expr::Variable(x) => match before.looked_up(x.name, x.id) {
                Ok(value) => r is Continue && self.valued(before.stack@, value),
                Err(error) => r == Action::Failed(error) && self.idle(),
            },
            Expr::This(x) => match before.looked_up(x.keyword, x.id) {
                Ok(value) => r is Continue && self.valued(before.stack@, value),
                Err(error) => r == Action::Failed(error) && self.idle(),
            },
            Expr::Grouping(x) => {
                &&& r is Continue
                &&& self.control == Control::Evaluate(&*x.expr)
                &&& self.stack == before.stack
            },
            Expr::Logical(x) => r is Continue && self.descended(before, Frame::Logical(&x), *x.left),
            Expr::Unary(x) => r is Continue && self.descended(before, Frame::Unary(&x), *x.right),
            Expr::Binary(x) => r is Continue && self.descended(
                before,
                Frame::BinaryLeft(&x),
                *x.left,
            ),
            Expr::Call(x) => r is Continue && self.descended(before, Frame::Callee(&x), *x.callee),
            Expr::Assignment(x) => r is Continue && self.descended(
                before,
                Frame::Assign(&x),
                *x.value,
            ),
            Expr::Get(x) => r is Continue && self.descended(before, Frame::Get(&x), *x.object),
            Expr::SetProperty(x) => r is Continue && self.descended(
                before,
                Frame::SetObject(&x),
                *x.object,
            ),
        }
    }

    /// Starts on an expression.
    fn evaluate(&mut self, expr: &'a Expr) -> (r: Action)
        requires
            old(self).wf(),
        ensures
            final(self).wf(),
            final(self).fits(r),
            final(self).grown_from(old(self)),
            final(self).heap == old(self).heap,
            final(self).evaluated(old(self), *expr, r),
    {
        match expr {
            Expr::Literal(x) => match RuntimeValue::from_literal(x) {
                Some(value) => self.give(value),
                None => {
                    self.control = Control::AwaitNumber;
                    Action::Decode(numeral_of(x))
                },
            },
            Expr::Variable(x) => match self.look_up_variable(&x.name, x.id) {
                Ok(value) => self.give(value),
                Err(error) => self.fail(error),
            },
            Expr::This(x) => match self.look_up_variable(&x.keyword, x.id) {
                Ok(value) => self.give(value),
                Err(error) => self.fail(error),
            },
            Expr::Grouping(x) => self.turn_to(&*x.expr),
            Expr::Logical(x) => {
                self.push(Frame::Logical(x));
                self.turn_to(&*x.left)
            },
            Expr::Unary(x) => {
                self.push(Frame::Unary(x));
                self.turn_to(&*x.right)
            },
            Expr::Binary(x) => {
                self.push(Frame::BinaryLeft(x));
                self.turn_to(&*x.left)
            },
            Expr::Call(x) => {
                self.push(Frame::Callee(x));
                self.turn_to(&*x.callee)
            },
            Expr::Assignment(x) => {
                self.push(Frame::Assign(x));
                self.turn_to(&*x.value)
            },
            Expr::Get(x) => {
                self.push(Frame::Get(x));
                self.turn_to(&*x.object)
            },
            Expr::SetProperty(x) => {
                self.push(Frame::SetObject(x));
                self.turn_to(&*x.object)
            },
        }
    }
}

impl<'a> Interpreter<'a> {
    /// The body of the function `function` is being executed with the
    /// parameters bound to `arguments` in a new environment inside the
    /// function's closure; the stack says that the call is to end in the
    /// environment of `before`, on top of the frames `below`.
    pub open spec fn entered(
        &self,
        before: &Interpreter<'a>,
        function: int,
        arguments: Seq<RuntimeValue>,
        below: Seq<Frame<'a>>,
    ) -> bool {
        let frame = before.heap.environments@.len() as int;
        let declaration = before.heap.functions@[function].declaration;
        &&& self.heap.same_but_environments(&before.heap)
        &&& self.heap.environments@.len() == frame + 1
        &&& forall|i: int|
            0 <= i < frame ==> self.heap.environments@[i] == before.heap.environments@[i]
        &&& self.heap.environments@[frame].enclosing == Some(
            before.heap.functions@[function].closure,
        )
        &&& self.heap.environments@[frame].values@ == bound_params(declaration.params@, arguments)
        &&& self.environment == frame
        &&& self.control is Completed
        &&& self.stack@ == below.push(Frame::Call(function as usize, before.environment)).push(
            Frame::Sequence(&declaration.body, 0),
        )
    }

    /// Enters a function: binds the parameters to the arguments in a new
    /// environment inside the function's closure and takes up the body.
    fn enter(&mut self, function: usize, arguments: Vec<RuntimeValue>) -> (r: Action)
        requires
            old(self).wf(),
            function < old(self).heap.functions@.len(),
            old(self).heap.all_ok(arguments@),
            arguments@.len() == old(self).heap.functions@[function as int].declaration.params@.len(),
        ensures
            final(self).wf(),
            final(self).fits(r),
            final(self).grown_from(old(self)),
            final(self).entered(old(self), function as int, arguments@, old(self).stack@),
            r is Continue,
    {
        let declaration = self.heap.functions[function].declaration;
        let closure = self.heap.functions[function].closure;
        let frame = self.heap.enclose(closure);
        let mut i: usize = 0;
        assert(declaration.params@.take(0) =~= Seq::empty());
        while i < declaration.params.len()
            invariant
                i <= declaration.params@.len(),
                arguments@.len() == declaration.params@.len(),
                self.heap.wf(),
                self.heap.same_but_environments(&old(self).heap),
                old(self).heap.all_ok(arguments@),
                frame == old(self).heap.environments@.len(),
                self.heap.environments@.len() == frame + 1,
                forall|j: int|
                    0 <= j < frame ==> self.heap.environments@[j] == old(self).heap.environments@[j],
                self.heap.environments@[frame as int].enclosing == Some(closure),
                self.heap.environments@[frame as int].values@ == bound_params(
                    declaration.params@.take(i as int),
                    arguments@,
                ),
                self.stack == old(self).stack,
                self.environment == old(self).environment,
                self.locals == old(self).locals,
                self.globals == old(self).globals,
            decreases declaration.params@.len() - i,
        {
            assert(declaration.params@.take(i + 1).drop_last() =~= declaration.params@.take(
                i as int,
            ));
            self.heap.bind(frame, declaration.params[i].lexeme.clone(), arguments[i].clone());
            i += 1;
        }
        assert(declaration.params@.take(i as int) =~= declaration.params@);
        self.stack.push(Frame::Call(function, self.environment));
        self.stack.push(Frame::Sequence(&declaration.body, 0));
        self.environment = frame;
        self.control = Control::Completed;
        Action::Continue
    }

    /// What the end of a call does: the environment is that of the call
    /// again, and the call has its result; an initializer whose closure
    /// does not bind `this` is an error.
    pub open spec fn left(
        &self,
        before: &Interpreter<'a>,
        function: int,
        previous: usize,
        returned: Option<RuntimeValue>,
        r: Action,
    ) -> bool {
        match call_result(before.heap, function, returned) {
            Some(value) => {
                &&& r is Continue
                &&& self.valued(before.stack@, value)
                &&& self.environment == previous
            },
            None => {
                &&& r matches Action::Failed(RuntimeError::UndefinedVariable { name })
                &&& name.lexeme@ == "this"@
                &&& self.idle()
            },
        }
    }

    /// Ends a call of `function` whose body is done: `returned` is what it
    /// returned, if it returned.
    fn leave(&mut self, function: usize, previous: usize, returned: Option<RuntimeValue>) -> (r:
        Action)
        requires
            old(self).wf(),
            function < old(self).heap.functions@.len(),
            previous < old(self).heap.environments@.len(),
            returned matches Some(value) ==> old(self).heap.value_ok(value),
        ensures
            final(self).wf(),
            final(self).fits(r),
            final(self).grown_from(old(self)),
            final(self).heap == old(self).heap,
            final(self).left(old(self), function as int, previous, returned, r),
    {
        self.environment = previous;
        if self.heap.functions[function].is_initializer {
            let closure = self.heap.functions[function].closure;
            match self.heap.environments[closure].values.get("this") {
                Some(receiver) => {
                    let receiver = receiver.clone();
                    self.give(receiver)
                },
                None => self.fail(
                    RuntimeError::UndefinedVariable {
                        name: Token {
                            token_type: TokenType::This,
                            lexeme: String::from_str("this"),
                            line: 0,
                        },
                    },
                ),
            }
        } else {
            match returned {
                Some(value) => self.give(value),
                None => self.give(RuntimeValue::Nil),
            }
        }
    }

    /// The initializer `initializer` of a class is being executed for the
    /// new instance `instance`: a new environment inside the closure of the
    /// initializer binds `this` to the instance, a new function like the
    /// initializer closes over that environment, and the body of that
    /// function is being executed with the parameters bound to `arguments`
    /// in a new environment inside it.  The stack says, on top of the
    /// frames `below`, that the instance is the result once the call has
    /// ended in the environment of `before`.
    pub open spec fn constructing(
        &self,
        before: &Interpreter<'a>,
        below: Seq<Frame<'a>>,
        initializer: int,
        instance: usize,
        arguments: Seq<RuntimeValue>,
    ) -> bool {
        let receiver = before.heap.environments@.len() as int;
        let frame = receiver + 1;
        let method = before.heap.functions@.len() as int;
        let declaration = before.heap.functions@[initializer].declaration;
        &&& self.heap.environments@.len() == frame + 1
        &&& forall|i: int|
            0 <= i < receiver ==> self.heap.environments@[i] == before.heap.environments@[i]
        &&& self.heap.environments@[receiver].enclosing == Some(
            before.heap.functions@[initializer].closure,
        )
        &&& self.heap.environments@[receiver].values@ == Map::<Seq<char>, RuntimeValue>::empty().insert(
            "this"@,
            RuntimeValue::LoxInstance(instance),
        )
        &&& self.heap.environments@[frame].enclosing == Some(receiver as usize)
        &&& self.heap.environments@[frame].values@ == bound_params(declaration.params@, arguments)
        &&& self.heap.functions@ == before.heap.functions@.push(
            LoxFunction {
                declaration,
                closure: receiver as usize,
                is_initializer: before.heap.functions@[initializer].is_initializer,
            },
        )
        &&& self.environment == frame
        &&& self.control is Completed
        &&& self.stack@ == below.push(Frame::Construct(instance)).push(
            Frame::Call(method as usize, before.environment),
        ).push(Frame::Sequence(&declaration.body, 0))
    }

    /// What a call does: what is no function and no class cannot be
    /// called; the number of arguments must be the arity; the clock is for
    /// the host to read; a function is entered; a class gets a new
    /// instance, which is the result at once if the class has no
    /// initializer, and else once the initializer, bound to the instance,
    /// has been called with the arguments.
    pub open spec fn called(
        &self,
        before: &Interpreter<'a>,
        below: Seq<Frame<'a>>,
        callee: RuntimeValue,
        arguments: Seq<RuntimeValue>,
        r: Action,
    ) -> bool {
        match callee {
            RuntimeValue::LoxCallable(callable) => if arguments.len() != arity_of(
                before.heap,
                callable,
            ) {
                &&& r == Action::Failed(
                    RuntimeError::WrongNumberOfArgs {
                        expected: arity_of(before.heap, callable) as usize,
                        found: arguments.len() as usize,
                    },
                )
                &&& self.idle()
                &&& self.heap == before.heap
            } else {
                match callable {
                    LoxCallable::Clock(_) => {
                        &&& r is Clock
                        &&& self.control is AwaitNumber
                        &&& self.stack@ == below
                        &&& self.same_memory(before)
                    },
                    LoxCallable::LoxFunction(f) => r is Continue && self.entered(
                        before,
                        f as int,
                        arguments,
                        below,
                    ),
                    LoxCallable::LoxClass(c) => {
                        let instance = before.heap.instances@.len();
                        &&& r is Continue
                        &&& self.heap.classes == before.heap.classes
                        &&& self.heap.instances@.len() == instance + 1
                        &&& forall|i: int|
                            0 <= i < instance ==> self.heap.instances@[i]
                                == before.heap.instances@[i]
                        &&& self.heap.instances@[instance as int].class == c
                        &&& self.heap.instances@[instance as int].fields@ == Map::<
                            Seq<char>,
                            RuntimeValue,
                        >::empty()
                        &&& if before.heap.classes@[c as int].methods@.contains_key("init"@) {
                            self.constructing(
                                before,
                                below,
                                before.heap.classes@[c as int].methods@["init"@] as int,
                                instance as usize,
                                arguments,
                            )
                        } else {
                            &&& self.valued(below, RuntimeValue::LoxInstance(instance as usize))
                            &&& self.environment == before.environment
                            &&& self.heap.environments == before.heap.environments
                            &&& self.heap.functions == before.heap.functions
                        }
                    },
                }
            },
            _ => {
                &&& r == Action::Failed(RuntimeError::InvalidCallable { value: callee })
                &&& self.idle()
                &&& self.heap == before.heap
            },
        }
    }

    /// Calls a value with arguments.
    pub fn call(&mut self, callee: RuntimeValue, arguments: Vec<RuntimeValue>) -> (r: Action)
        requires
            old(self).wf(),
            old(self).heap.value_ok(callee),
            old(self).heap.all_ok(arguments@),
        ensures
            final(self).wf(),
            final(self).fits(r),
            final(self).grown_from(old(self)),
            final(self).called(old(self), old(self).stack@, callee, arguments@, r),
    {
        let callable = match callee {
            RuntimeValue::LoxCallable(callable) => callable,
            _ => {
                return self.fail(RuntimeError::InvalidCallable { value: callee });
            },
        };
        let arity = self.heap.arity(&callable);
        if arguments.len() != arity {
            return self.fail(
                RuntimeError::WrongNumberOfArgs { expected: arity, found: arguments.len() },
            );
        }
        match callable {
            LoxCallable::Clock(_) => {
                self.control = Control::AwaitNumber;
                Action::Clock
            },
            LoxCallable::LoxFunction(function) => self.enter(function, arguments),
            LoxCallable::LoxClass(class) => {
                let instance = self.heap.add_instance(class);
                match self.heap.classes[class].find_method("init") {
                    Some(initializer) => {
                        let method = self.heap.bind_method(initializer, instance);
                        self.stack.push(Frame::Construct(instance));
                        self.enter(method, arguments)
                    },
                    None => self.give(RuntimeValue::LoxInstance(instance)),
                }
            },
        }
    }
}

impl<'a> Interpreter<'a> {
    /// What the value of the left operand of `and` or `or` leads to: it is
    /// the value of the whole if it decides, and the right operand is not
    /// evaluated; else the right operand is evaluated, and its value is
    /// the value of the whole.
    pub open spec fn after_logical(
        &self,
        before: &Interpreter<'a>,
        below: Seq<Frame<'a>>,
        expr: LogicalExpr,
        left: RuntimeValue,
    ) -> bool {
        if short_circuits(expr.operator, left) {
            self.valued(below, left)
        } else {
            &&& self.control == Control::Evaluate(&*expr.right)
            &&& self.stack@ == below
        }
    }

    fn continue_logical(&mut self, expr: &'a LogicalExpr, left: RuntimeValue) -> (r: Action)
        requires
            old(self).wf(),
            old(self).heap.value_ok(left),
        ensures
            final(self).wf(),
            final(self).fits(r),
            final(self).same_memory(old(self)),
            final(self).after_logical(old(self), old(self).stack@, *expr, left),
            r is Continue,
    {
        if Self::visit_logical_expr(expr, &left) {
            self.give(left)
        } else {
            self.turn_to(&*expr.right)
        }
    }

    /// What the value of the operand of a unary operator leads to.
    pub open spec fn after_unary(
        &self,
        before: &Interpreter<'a>,
        below: Seq<Frame<'a>>,
        expr: UnaryExpr,
        right: RuntimeValue,
        r: Action,
    ) -> bool {
        match expr.op.0 {
            UnaryExprOp::Not => r is Continue && self.valued(
                below,
                RuntimeValue::Boolean(!right.truthy()),
            ),
            UnaryExprOp::Minus => match right {
                RuntimeValue::Number(n) => r is Continue && self.valued(
                    below,
                    RuntimeValue::Number(negated(n)),
                ),
                _ => r == Action::Failed(RuntimeError::InvalidUnaryExpr { operator: expr.op.1 })
                    && self.idle(),
            },
        }
    }

    fn continue_unary(&mut self, expr: &'a UnaryExpr, right: RuntimeValue) -> (r: Action)
        requires
            old(self).wf(),
            old(self).heap.value_ok(right),
        ensures
            final(self).wf(),
            final(self).fits(r),
            !(r is Failed) ==> final(self).environment == old(self).environment,
            final(self).grown_from(old(self)),
            final(self).heap == old(self).heap,
            final(self).after_unary(old(self), old(self).stack@, *expr, right, r),
    {
        match Self::visit_unary_expr(expr.op.0, &right) {
            Some(value) => self.give(value),
            None => self.fail(RuntimeError::InvalidUnaryExpr { operator: expr.op.1.clone() }),
        }
    }

    /// What the value of the right operand of a binary operator leads to,
    /// when the left operand has the value `left`.
    pub open spec fn after_binary(
        &self,
        before: &Interpreter<'a>,
        below: Seq<Frame<'a>>,
        expr: BinaryExpr,
        left: RuntimeValue,
        right: RuntimeValue,
        r: Action,
    ) -> bool {
        match binary_result(expr.op.0, left, right) {
            Computed::Boolean(b) => r is Continue && self.valued(below, RuntimeValue::Boolean(b)),
            Computed::Text(text) => {
                &&& r is Continue
                &&& self.control matches Control::Value(RuntimeValue::String(s))
                &&& s@ == text
                &&& self.stack@ == below
            },
            Computed::Arithmetic(op, a, b) => {
                &&& r == Action::Arithmetic(op, a, b)
                &&& self.control is AwaitNumber
                &&& self.stack@ == below
            },
            Computed::Invalid => r == Action::Failed(
                RuntimeError::InvalidBinaryExpr { operator: expr.op.1 },
            ) && self.idle(),
        }
    }

    fn continue_binary(&mut self, expr: &'a BinaryExpr, left: RuntimeValue, right: RuntimeValue) -> (r:
        Action)
        requires
            old(self).wf(),
        ensures
            final(self).wf(),
            final(self).fits(r),
            !(r is Failed) ==> final(self).environment == old(self).environment,
            final(self).grown_from(old(self)),
            final(self).heap == old(self).heap,
            final(self).after_binary(old(self), old(self).stack@, *expr, left, right, r),
    {
        match Self::visit_binary_expr(expr.op.0, &left, &right) {
            Outcome::Value(value) => self.give(value),
            Outcome::Arithmetic(op, a, b) => {
                self.control = Control::AwaitNumber;
                Action::Arithmetic(op, a, b)
            },
            Outcome::Invalid => self.fail(
                RuntimeError::InvalidBinaryExpr { operator: expr.op.1.clone() },
            ),
        }
    }

    /// What a call goes on with once its callee and these arguments are
    /// there: the next argument, or the call itself.
    pub open spec fn went_on(
        &self,
        before: &Interpreter<'a>,
        below: Seq<Frame<'a>>,
        expr: &'a CallExpr,
        callee: RuntimeValue,
        arguments: Seq<RuntimeValue>,
        r: Action,
    ) -> bool {
        if arguments.len() < expr.arguments@.len() {
            &&& r is Continue
            &&& self.heap == before.heap
            &&& self.environment == before.environment
            &&& self.control == Control::Evaluate(&expr.arguments@[arguments.len() as int])
            &&& self.stack@.len() == below.len() + 1
            &&& self.stack@.drop_last() == below
            &&& self.stack@.last() matches Frame::Argument(e, c, a)
            &&& e == expr
            &&& c == callee
            &&& a@ == arguments
        } else {
            self.called(before, below, callee, arguments, r)
        }
    }

    /// Goes on with a call: with the next argument, or with the call
    /// itself.
    fn continue_call(&mut self, expr: &'a CallExpr, callee: RuntimeValue, arguments: Vec<RuntimeValue>) -> (r:
        Action)
        requires
            old(self).wf(),
            old(self).heap.value_ok(callee),
            old(self).heap.all_ok(arguments@),
            arguments@.len() <= expr.arguments@.len(),
        ensures
            final(self).wf(),
            final(self).fits(r),
            final(self).grown_from(old(self)),
            final(self).went_on(old(self), old(self).stack@, expr, callee, arguments@, r),
    {
        if arguments.len() < expr.arguments.len() {
            let next = &expr.arguments[arguments.len()];
            self.push(Frame::Argument(expr, callee, arguments));
            assert(self.stack@.drop_last() =~= old(self).stack@);
            self.turn_to(next)
        } else {
            self.call(callee, arguments)
        }
    }

    /// What the value of the right side of an assignment leads to: it is
    /// written to the variable and is the value of the assignment, or the
    /// variable is not bound.
    pub open spec fn after_assign(
        &self,
        before: &Interpreter<'a>,
        below: Seq<Frame<'a>>,
        expr: AssignmentExpr,
        value: RuntimeValue,
        r: Action,
    ) -> bool {
        match before.target_of(expr.name, expr.id) {
            Some(frame) => {
                &&& r is Continue
                &&& self.valued(below, value)
                &&& crate::environment::written(
                    self.heap.environments@,
                    before.heap.environments@,
                    frame,
                    expr.name.lexeme@,
                    value,
                )
            },
            None => {
                &&& r == Action::Failed(RuntimeError::UndefinedVariable { name: expr.name })
                &&& self.idle()
                &&& self.heap == before.heap
            },
        }
    }

    fn continue_assign(&mut self, expr: &'a AssignmentExpr, value: RuntimeValue) -> (r: Action)
        requires
            old(self).wf(),
            old(self).heap.value_ok(value),
        ensures
            final(self).wf(),
            final(self).fits(r),
            !(r is Failed) ==> final(self).environment == old(self).environment,
            final(self).grown_from(old(self)),
            final(self).heap.same_but_environments(&old(self).heap),
            final(self).after_assign(old(self), old(self).stack@, *expr, value, r),
    {
        match self.visit_assignment_expr(expr, value.clone()) {
            Ok(()) => self.give(value),
            Err(error) => self.fail(error),
        }
    }

    /// What reading a property of a value does: of an instance it gives
    /// the field of that name, or else the method of that name bound to
    /// the instance, and an instance that has neither is an error; so is
    /// anything that is no instance.
    pub open spec fn got(
        &self,
        before: &Interpreter<'a>,
        below: Seq<Frame<'a>>,
        expr: GetExpr,
        object: RuntimeValue,
        r: Action,
    ) -> bool {
        match object {
            RuntimeValue::LoxInstance(instance) => {
                let fields = before.heap.instances@[instance as int].fields@;
                let class = before.heap.instances@[instance as int].class;
                let methods = before.heap.classes@[class as int].methods@;
                if fields.contains_key(expr.name.lexeme@) {
                    &&& r is Continue
                    &&& self.valued(below, fields[expr.name.lexeme@])
                    &&& self.heap == before.heap
                } else if methods.contains_key(expr.name.lexeme@) {
                    &&& r is Continue
                    &&& self.valued(
                        below,
                        RuntimeValue::LoxCallable(
                            LoxCallable::LoxFunction(before.heap.functions@.len() as usize),
                        ),
                    )
                    &&& bound(
                        self.heap,
                        before.heap,
                        methods[expr.name.lexeme@] as int,
                        instance,
                    )
                } else {
                    &&& r == Action::Failed(RuntimeError::UndefinedProperty { name: expr.name })
                    &&& self.idle()
                    &&& self.heap == before.heap
                }
            },
            _ => {
                &&& r == Action::Failed(RuntimeError::InvalidGetExpr { name: expr.name })
                &&& self.idle()
                &&& self.heap == before.heap
            },
        }
    }

    /// Reads a property of a value.
    fn visit_get_expr(&mut self, expr: &'a GetExpr, object: RuntimeValue) -> (r: Action)
        requires
            old(self).wf(),
            old(self).heap.value_ok(object),
        ensures
            final(self).wf(),
            final(self).fits(r),
            !(r is Failed) ==> final(self).environment == old(self).environment,
            final(self).grown_from(old(self)),
            final(self).got(old(self), old(self).stack@, *expr, object, r),
    {
        match object {
            RuntimeValue::LoxInstance(instance) => {
                match self.heap.get_property(instance, &expr.name) {
                    Ok(value) => self.give(value),
                    Err(error) => self.fail(error),
                }
            },
            _ => self.fail(RuntimeError::InvalidGetExpr { name: expr.name.clone() }),
        }
    }

    /// What the object of a property write leads to: the value is
    /// evaluated next, or the object is no instance.
    pub open spec fn after_set_object(
        &self,
        before: &Interpreter<'a>,
        below: Seq<Frame<'a>>,
        expr: &'a SetExpr,
        object: RuntimeValue,
        r: Action,
    ) -> bool {
        match object {
            RuntimeValue::LoxInstance(instance) => {
                &&& r is Continue
                &&& self.control == Control::Evaluate(&*expr.value)
                &&& self.stack@ == below.push(Frame::SetValue(expr, instance))
            },
            _ => r == Action::Failed(RuntimeError::InvalidSetExpr { name: expr.name })
                && self.idle(),
        }
    }

    fn continue_set_object(&mut self, expr: &'a SetExpr, object: RuntimeValue) -> (r: Action)
        requires
            old(self).wf(),
            old(self).heap.value_ok(object),
        ensures
            final(self).wf(),
            final(self).fits(r),
            !(r is Failed) ==> final(self).environment == old(self).environment,
            final(self).grown_from(old(self)),
            final(self).heap == old(self).heap,
            final(self).after_set_object(old(self), old(self).stack@, expr, object, r),
    {
        match object {
            RuntimeValue::LoxInstance(instance) => {
                self.push(Frame::SetValue(expr, instance));
                self.turn_to(&*expr.value)
            },
            _ => self.fail(RuntimeError::InvalidSetExpr { name: expr.name.clone() }),
        }
    }

    /// What the value of a property write leads to: the field of the
    /// instance has the value, whether or not it was there, and the value
    /// is the value of the expression.
    pub open spec fn after_set_value(
        &self,
        before: &Interpreter<'a>,
        below: Seq<Frame<'a>>,
        expr: SetExpr,
        instance: usize,
        value: RuntimeValue,
    ) -> bool {
        let objects = before.heap.instances@;
        &&& self.valued(below, value)
        &&& self.heap.environments == before.heap.environments
        &&& self.heap.functions == before.heap.functions
        &&& self.heap.classes == before.heap.classes
        &&& self.heap.instances@.len() == objects.len()
        &&& self.heap.instances@[instance as int].class == objects[instance as int].class
        &&& self.heap.instances@[instance as int].fields@ == objects[instance as int].fields@.insert(
            expr.name.lexeme@,
            value,
        )
        &&& forall|i: int|
            0 <= i < objects.len() && i != instance ==> self.heap.instances@[i] == objects[i]
    }

    /// Writes a field of an instance; the value written is the value of
    /// the expression.
    fn visit_set_expr(&mut self, expr: &'a SetExpr, instance: usize, value: RuntimeValue) -> (r:
        Action)
        requires
            old(self).wf(),
            instance < old(self).heap.instances@.len(),
            old(self).heap.value_ok(value),
        ensures
            final(self).wf(),
            final(self).fits(r),
            !(r is Failed) ==> final(self).environment == old(self).environment,
            final(self).grown_from(old(self)),
            final(self).after_set_value(old(self), old(self).stack@, *expr, instance, value),
            r is Continue,
    {
        self.heap.set_property(instance, expr.name.clone(), value.clone());
        self.give(value)
    }

    /// What the value of a `print` leads to: a line for the host to
    /// write, or, of a number, a double for the host to write down; its
    /// text comes back as the value.
    pub open spec fn after_print(
        &self,
        before: &Interpreter<'a>,
        below: Seq<Frame<'a>>,
        value: RuntimeValue,
        r: Action,
    ) -> bool {
        match text_of(before.heap, value) {
            Some(text) => {
                &&& r matches Action::Print(line)
                &&& line@ == text
                &&& self.control is Completed
                &&& self.stack@ == below
            },
            None => {
                &&& value matches RuntimeValue::Number(n)
                &&& r == Action::Format(n)
                &&& self.control is AwaitText
                &&& self.stack@ == below.push(Frame::Print)
            },
        }
    }

    fn visit_print_stmt(&mut self, value: RuntimeValue) -> (r: Action)
        requires
            old(self).wf(),
            old(self).heap.value_ok(value),
        ensures
            final(self).wf(),
            final(self).fits(r),
            final(self).same_memory(old(self)),
            final(self).after_print(old(self), old(self).stack@, value, r),
    {
        match self.heap.stringify(&value) {
            Some(line) => {
                self.control = Control::Completed;
                Action::Print(line)
            },
            None => {
                self.stack.push(Frame::Print);
                self.control = Control::AwaitText;
                match value {
                    RuntimeValue::Number(n) => Action::Format(n),
                    _ => Action::Format(0),
                }
            },
        }
    }

    /// Binds the variable of a declaration in the current environment.
    fn visit_variable_stmt(&mut self, stmt: &'a VariableStmt, value: RuntimeValue) -> (r: Action)
        requires
            old(self).wf(),
            old(self).heap.value_ok(value),
        ensures
            final(self).wf(),
            final(self).fits(r),
            final(self).grown_from(old(self)),
            final(self).heap.same_but_environments(&old(self).heap),
            crate::environment::written(
                final(self).heap.environments@,
                old(self).heap.environments@,
                old(self).environment as int,
                stmt.name.lexeme@,
                value,
            ),
            final(self).control is Completed,
            final(self).stack == old(self).stack,
            final(self).environment == old(self).environment,
            r is Continue,
    {
        self.heap.bind(self.environment, stmt.name.lexeme.clone(), value);
        self.control = Control::Completed;
        Action::Continue
    }

    /// What the value of the condition of an `if` leads to.
    fn visit_if_stmt(&mut self, stmt: &'a IfStmt, condition: RuntimeValue) -> (r: Action)
        requires
            old(self).wf(),
        ensures
            final(self).wf(),
            final(self).fits(r),
            final(self).same_memory(old(self)),
            final(self).stack == old(self).stack,
            final(self).control == if condition.truthy() {
                Control::Execute(&*stmt.then_branch)
            } else {
                match stmt.else_branch {
                    Some(otherwise) => Control::Execute(&*otherwise),
                    None => Control::Completed,
                }
            },
            r is Continue,
    {
        if condition.is_truthy() {
            self.turn_to_statement(&*stmt.then_branch)
        } else {
            match &stmt.else_branch {
                Some(otherwise) => self.turn_to_statement(&**otherwise),
                None => self.done(),
            }
        }
    }

    /// What the value of the condition of a `while` leads to: the body,
    /// after which the condition is evaluated again, or the end of the
    /// loop.
    fn visit_while_stmt(&mut self, stmt: &'a WhileStmt, condition: RuntimeValue) -> (r: Action)
        requires
            old(self).wf(),
        ensures
            final(self).wf(),
            final(self).fits(r),
            final(self).same_memory(old(self)),
            if condition.truthy() {
                &&& final(self).control == Control::Execute(&*stmt.body)
                &&& final(self).stack@ == old(self).stack@.push(Frame::Again(stmt))
            } else {
                &&& final(self).control is Completed
                &&& final(self).stack == old(self).stack
            },
            r is Continue,
    {
        if condition.is_truthy() {
            self.push(Frame::Again(stmt));
            self.turn_to_statement(&*stmt.body)
        } else {
            self.done()
        }
    }

    /// Declares a function: a function that closes over the current
    /// environment is bound to its name there.
    fn visit_function_stmt(&mut self, stmt: &'a FunctionStmt) -> (r: Action)
        requires
            old(self).wf(),
        ensures
            final(self).wf(),
            final(self).fits(r),
            final(self).grown_from(old(self)),
            final(self).executed(old(self), Stmt::Function(*stmt), r),
            r is Continue,
    {
        let function = self.heap.add_function(LoxFunction::new(stmt, self.environment, false));
        self.heap.bind(
            self.environment,
            stmt.name.lexeme.clone(),
            RuntimeValue::LoxCallable(LoxCallable::LoxFunction(function)),
        );
        self.control = Control::Completed;
        Action::Continue
    }

    /// Declares a class: its methods become functions that close over the
    /// current environment, and the class is bound to its name there.
    fn visit_class_stmt(&mut self, stmt: &'a ClassStmt) -> (r: Action)
        requires
            old(self).wf(),
        ensures
            final(self).wf(),
            final(self).fits(r),
            final(self).grown_from(old(self)),
            final(self).executed(old(self), Stmt::Class(*stmt), r),
            r is Continue,
    {
        let ghost first = self.heap.functions@.len() as int;
        let mut methods: StringHashMap<usize> = StringHashMap::new();
        let mut i: usize = 0;
        assert(stmt.methods@.take(0) =~= Seq::empty());
        while i < stmt.methods.len()
            invariant
                i <= stmt.methods@.len(),
                self.heap.wf(),
                first == old(self).heap.functions@.len(),
                self.heap.environments == old(self).heap.environments,
                self.heap.classes == old(self).heap.classes,
                self.heap.instances == old(self).heap.instances,
                self.heap.functions@.len() == first + i,
                forall|j: int|
                    0 <= j < first ==> self.heap.functions@[j] == old(self).heap.functions@[j],
                forall|j: int|
                    0 <= j < i ==> #[trigger] self.heap.functions@[first + j] == (LoxFunction {
                        declaration: &stmt.methods@[j],
                        closure: old(self).environment,
                        is_initializer: stmt.methods@[j].name.lexeme@ == "init"@,
                    }),
                methods@ == method_table(stmt.methods@.take(i as int), first),
                forall|name: Seq<char>| #[trigger]
                    methods@.contains_key(name) ==> methods@[name] < self.heap.functions@.len(),
                self.stack == old(self).stack,
                self.environment == old(self).environment,
                self.locals == old(self).locals,
                self.globals == old(self).globals,
                self.control == old(self).control,
                self.environment < self.heap.environments@.len(),
            decreases stmt.methods@.len() - i,
        {
            assert(stmt.methods@.take(i + 1).drop_last() =~= stmt.methods@.take(i as int));
            let method = &stmt.methods[i];
            let is_initializer = text_eq(method.name.lexeme.as_str(), "init");
            let function = self.heap.add_function(
                LoxFunction::new(method, self.environment, is_initializer),
            );
            methods.insert(method.name.lexeme.clone(), function);
            i += 1;
        }
        assert(stmt.methods@.take(i as int) =~= stmt.methods@);
        let class = self.heap.add_class(LoxClass::new(stmt.name.lexeme.clone(), methods));
        self.heap.bind(
            self.environment,
            stmt.name.lexeme.clone(),
            RuntimeValue::LoxCallable(LoxCallable::LoxClass(class)),
        );
        self.control = Control::Completed;
        Action::Continue
    }
}

impl<'a> Interpreter<'a> {
    /// What starting on a statement does.
    pub open spec fn executed(&self, before: &Interpreter<'a>, stmt: Stmt, r: Action) -> bool {
        let frames = before.heap.environments@;
        match stmt {
            Stmt::Block(x) => {
                &&& self.heap.same_but_environments(&before.heap)
                &&& self.heap.environments@.len() == frames.len() + 1
                &&& forall|i: int|
                    0 <= i < frames.len() ==> self.heap.environments@[i] == frames[i]
                &&& self.heap.environments@.last().enclosing == Some(before.environment)
                &&& self.heap.environments@.last().values@ == Map::<
                    Seq<char>,
                    RuntimeValue,
                >::empty()
                &&& self.environment == frames.len()
                &&& self.control is Completed
                &&& self.stack@ == before.stack@.push(Frame::Restore(before.environment)).push(
                    Frame::Sequence(&x.stmts, 0),
                )
            },
            Stmt::Expression(x) => {
                &&& self.same_memory(before)
                &&& self.control == Control::Evaluate(&x.expr)
                &&& self.stack@ == before.stack@.push(Frame::Discard)
            },
            Stmt::Print(x) => {
                &&& self.same_memory(before)
                &&& self.control == Control::Evaluate(&x.expr)
                &&& self.stack@ == before.stack@.push(Frame::Print)
            },
            Stmt::Variable(x) => match x.initializer {
                Some(initializer) => {
                    &&& self.same_memory(before)
                    &&& self.control == Control::Evaluate(&initializer)
                    &&& self.stack@ == before.stack@.push(Frame::Define(&x))
                },
                None => {
                    &&& self.control is Completed
                    &&& self.stack == before.stack
                    &&& self.environment == before.environment
                    &&& self.heap.same_but_environments(&before.heap)
                    &&& crate::environment::written(
                        self.heap.environments@,
                        frames,
                        before.environment as int,
                        x.name.lexeme@,
                        RuntimeValue::Nil,
                    )
                },
            },
            Stmt::If(x) => {
                &&& self.same_memory(before)
                &&& self.control == Control::Evaluate(&x.condition)
                &&& self.stack@ == before.stack@.push(Frame::Branch(&x))
            },
            Stmt::While(x) => {
                &&& self.same_memory(before)
                &&& self.control == Control::Evaluate(&x.condition)
                &&& self.stack@ == before.stack@.push(Frame::Loop(&x))
            },
            Stmt::Function(x) => {
                &&& self.environment == before.environment
                &&& self.control is Completed
                &&& self.stack == before.stack
                &&& self.heap.functions@ == before.heap.functions@.push(
                    LoxFunction {
                        declaration: &x,
                        closure: before.environment,
                        is_initializer: false,
                    },
                )
                &&& crate::environment::written(
                    self.heap.environments@,
                    frames,
                    before.environment as int,
                    x.name.lexeme@,
                    RuntimeValue::LoxCallable(
                        LoxCallable::LoxFunction(before.heap.functions@.len() as usize),
                    ),
                )
                &&& self.heap.classes == before.heap.classes
                &&& self.heap.instances == before.heap.instances
            },
            Stmt::Return(x) => match x.value {
                Some(value) => {
                    &&& self.same_memory(before)
                    &&& self.control == Control::Evaluate(&value)
                    &&& self.stack@ == before.stack@.push(Frame::Return)
                },
                None => {
                    &&& self.same_memory(before)
                    &&& self.control == Control::<'a>::Returning(RuntimeValue::Nil)
                    &&& self.stack == before.stack
                },
            },
            Stmt::Class(x) => {
                &&& self.environment == before.environment
                &&& self.control is Completed
                &&& self.stack == before.stack
                &&& self.heap.instances == before.heap.instances
                &&& self.heap.classes@.len() == before.heap.classes@.len() + 1
                &&& self.heap.classes@.last().name == x.name.lexeme
                &&& self.heap.classes@.last().methods@ == method_table(
                    x.methods@,
                    before.heap.functions@.len() as int,
                )
                &&& self.heap.functions@.len() == before.heap.functions@.len() + x.methods@.len()
                &&& forall|i: int|
                    0 <= i < x.methods@.len() ==> #[trigger] self.heap.functions@[
                        before.heap.functions@.len() + i] == (LoxFunction {
                        declaration: &x.methods@[i],
                        closure: before.environment,
                        is_initializer: x.methods@[i].name.lexeme@ == "init"@,
                    })
                &&& crate::environment::written(
                    self.heap.environments@,
                    frames,
                    before.environment as int,
                    x.name.lexeme@,
                    RuntimeValue::LoxCallable(
                        LoxCallable::LoxClass(before.heap.classes@.len() as usize),
                    ),
                )
            },
        }
    }

    /// Starts on a statement.
    fn execute(&mut self, stmt: &'a Stmt) -> (r: Action)
        requires
            old(self).wf(),
        ensures
            final(self).wf(),
            final(self).fits(r),
            final(self).grown_from(old(self)),
            final(self).executed(old(self), *stmt, r),
            r is Continue,
    {
        match stmt {
            Stmt::Block(x) => {
                let environment = self.heap.enclose(self.environment);
                self.execute_block(&x.stmts, environment);
                Action::Continue
            },
            Stmt::Expression(x) => {
                self.push(Frame::Discard);
                self.turn_to(&x.expr)
            },
            Stmt::Print(x) => {
                self.push(Frame::Print);
                self.turn_to(&x.expr)
            },
            Stmt::Variable(x) => match &x.initializer {
                Some(initializer) => {
                    self.push(Frame::Define(x));
                    self.turn_to(initializer)
                },
                None => self.visit_variable_stmt(x, RuntimeValue::Nil),
            },
            Stmt::If(x) => {
                self.push(Frame::Branch(x));
                self.turn_to(&x.condition)
            },
            Stmt::While(x) => {
                self.push(Frame::Loop(x));
                self.turn_to(&x.condition)
            },
            Stmt::Function(x) => self.visit_function_stmt(x),
            Stmt::Return(x) => match &x.value {
                Some(value) => {
                    self.push(Frame::Return);
                    self.turn_to(value)
                },
                None => {
                    self.control = Control::Returning(RuntimeValue::Nil);
                    Action::Continue
                },
            },
            Stmt::Class(x) => self.visit_class_stmt(x),
        }
    }

    /// What the machine does with the value of an expression: the frame on
    /// top of the stack says what the value is for.
    pub open spec fn delivered(&self, before: &Interpreter<'a>, value: RuntimeValue, r: Action) -> bool {
        if before.stack@.len() == 0 {
            r is Finished && self.idle() && self.heap == before.heap
        } else {
            let below = before.stack@.drop_last();
            let frames = before.heap.environments@;
            match before.stack@.last() {
                Frame::Logical(x) => {
                    &&& r is Continue
                    &&& self.heap == before.heap
                    &&& self.after_logical(before, below, *x, value)
                },
                Frame::Unary(x) => self.heap == before.heap && self.after_unary(
                    before,
                    below,
                    *x,
                    value,
                    r,
                ),
                Frame::BinaryLeft(x) => {
                    &&& r is Continue
                    &&& self.heap == before.heap
                    &&& self.control == Control::Evaluate(&*x.right)
                    &&& self.stack@ == below.push(Frame::BinaryRight(x, value))
                },
                Frame::BinaryRight(x, left) => self.heap == before.heap && self.after_binary(
                    before,
                    below,
                    *x,
                    left,
                    value,
                    r,
                ),
                Frame::Callee(x) => self.went_on(before, below, x, value, Seq::empty(), r),
                Frame::Argument(x, callee, arguments) => self.went_on(
                    before,
                    below,
                    x,
                    callee,
                    arguments@.push(value),
                    r,
                ),
                Frame::Assign(x) => self.after_assign(before, below, *x, value, r),
                Frame::Get(x) => self.got(before, below, *x, value, r),
                Frame::SetObject(x) => self.heap == before.heap && self.after_set_object(
                    before,
                    below,
                    x,
                    value,
                    r,
                ),
                Frame::SetValue(x, instance) => r is Continue && self.after_set_value(
                    before,
                    below,
                    *x,
                    instance,
                    value,
                ),
                Frame::Discard => {
                    &&& r is Continue
                    &&& self.heap == before.heap
                    &&& self.control is Completed
                    &&& self.stack@ == below
                },
                Frame::Print => self.heap == before.heap && self.after_print(
                    before,
                    below,
                    value,
                    r,
                ),
                Frame::Define(x) => {
                    &&& r is Continue
                    &&& self.control is Completed
                    &&& self.stack@ == below
                    &&& self.heap.same_but_environments(&before.heap)
                    &&& crate::environment::written(
                        self.heap.environments@,
                        frames,
                        before.environment as int,
                        x.name.lexeme@,
                        value,
                    )
                },
                Frame::Branch(x) => {
                    &&& r is Continue
                    &&& self.heap == before.heap
                    &&& self.stack@ == below
                    &&& self.control == if value.truthy() {
                        Control::Execute(&*x.then_branch)
                    } else {
                        match x.else_branch {
                            Some(otherwise) => Control::Execute(&*otherwise),
                            None => Control::Completed,
                        }
                    }
                },
                Frame::Loop(x) => {
                    &&& r is Continue
                    &&& self.heap == before.heap
                    &&& if value.truthy() {
                        &&& self.control == Control::Execute(&*x.body)
                        &&& self.stack@ == below.push(Frame::Again(x))
                    } else {
                        &&& self.control is Completed
                        &&& self.stack@ == below
                    }
                },
                Frame::Return => {
                    &&& r is Continue
                    &&& self.heap == before.heap
                    &&& self.control == Control::<'a>::Returning(value)
                    &&& self.stack@ == below
                },
                Frame::Construct(instance) => {
                    &&& r is Continue
                    &&& self.heap == before.heap
                    &&& self.valued(below, RuntimeValue::LoxInstance(instance))
                },
                // A value for a frame that waits for a statement is dropped.
                _ => {
                    &&& r is Continue
                    &&& self.heap == before.heap
                    &&& self.control is Completed
                    &&& self.stack@ == before.stack@
                },
            }
        }
    }

    /// But for a call and for an error, which ends in the global
    /// environment, the value of an expression leaves the environment as
    /// it is.
    pub open spec fn stayed(&self, before: &Interpreter<'a>, r: Action) -> bool {
        before.stack@.len() > 0 && !(r is Failed) && !(before.stack@.last() is Callee) && !(
        before.stack@.last() is Argument) ==> self.environment == before.environment
    }

    /// What the machine does after a statement: the frame on top of the
    /// stack says what is left to do.
    pub open spec fn completed(&self, before: &Interpreter<'a>, r: Action) -> bool {
        &&& self.heap == before.heap
        &&& if before.stack@.len() == 0 {
            r is Finished && self.idle()
        } else {
            let below = before.stack@.drop_last();
            match before.stack@.last() {
                Frame::Sequence(statements, next) => {
                    &&& r is Continue
                    &&& self.environment == before.environment
                    &&& if next < statements@.len() {
                        &&& self.control == Control::Execute(&statements@[next as int])
                        &&& self.stack@ == below.push(
                            Frame::Sequence(statements, (next + 1) as usize),
                        )
                    } else {
                        &&& self.control is Completed
                        &&& self.stack@ == below
                    }
                },
                Frame::Again(x) => {
                    &&& r is Continue
                    &&& self.environment == before.environment
                    &&& self.control == Control::Evaluate(&x.condition)
                    &&& self.stack@ == below.push(Frame::Loop(x))
                },
                Frame::Restore(environment) => {
                    &&& r is Continue
                    &&& self.environment == environment
                    &&& self.control is Completed
                    &&& self.stack@ == below
                },
                Frame::Call(function, previous) => self.returned_to(
                    before,
                    function as int,
                    previous,
                    None,
                    r,
                ),
                Frame::Construct(instance) => {
                    &&& r is Continue
                    &&& self.environment == before.environment
                    &&& self.valued(below, RuntimeValue::LoxInstance(instance))
                },
                // A frame that waits for a value is dropped.
                _ => {
                    &&& r is Continue
                    &&& self.environment == before.environment
                    &&& self.control is Completed
                    &&& self.stack@ == below
                },
            }
        }
    }

    /// What the machine does with a `return` on its way: a block on the
    /// way is left, the call of the innermost function ends with the value
    /// returned, any other frame is dropped, and a `return` that no call
    /// is around is an error.
    pub open spec fn unwound(&self, before: &Interpreter<'a>, value: RuntimeValue, r: Action) -> bool {
        &&& self.heap == before.heap
        &&& if before.stack@.len() == 0 {
            &&& r == Action::Failed(RuntimeError::NonErrorReturnShortCircuit { value })
            &&& self.idle()
        } else {
            let below = before.stack@.drop_last();
            match before.stack@.last() {
                Frame::Restore(environment) => {
                    &&& r is Continue
                    &&& self.control == Control::<'a>::Returning(value)
                    &&& self.stack@ == below
                    &&& self.environment == environment
                },
                Frame::Call(function, previous) => self.returned_to(
                    before,
                    function as int,
                    previous,
                    Some(value),
                    r,
                ),
                _ => {
                    &&& r is Continue
                    &&& self.control == Control::<'a>::Returning(value)
                    &&& self.stack@ == below
                    &&& self.environment == before.environment
                },
            }
        }
    }

    /// One move of the machine, from `before` to here with the action `r`.
    pub open spec fn stepped(&self, before: &Interpreter<'a>, r: Action) -> bool {
        match before.control {
            Control::Idle => r is Finished && self.idle() && self.heap == before.heap,
            Control::Evaluate(expr) => self.heap == before.heap && self.evaluated(before, *expr, r),
            Control::Execute(stmt) => r is Continue && self.executed(before, *stmt, r),
            Control::Value(value) => self.delivered(before, value, r),
            Control::Completed => self.completed(before, r),
            Control::Returning(value) => self.unwound(before, value, r),
            Control::AwaitNumber => false,
            Control::AwaitText => false,
        }
    }

    /// Hands the value of an expression to what waits for it on the stack.
    fn deliver(&mut self, value: RuntimeValue) -> (r: Action)
        requires
            old(self).wf(),
            old(self).heap.value_ok(value),
        ensures
            final(self).wf(),
            final(self).fits(r),
            final(self).grown_from(old(self)),
            final(self).delivered(old(self), value, r),
            final(self).stayed(old(self), r),
    {
        let frame = match self.stack.pop() {
            Some(frame) => frame,
            None => {
                self.environment = self.globals;
                self.control = Control::Idle;
                return Action::Finished;
            },
        };
        assert(old(self).frame_ok(frame));
        assert(forall|i: int|
            0 <= i < self.stack@.len() ==> self.stack@[i] == old(self).stack@[i]);
        assert(self.stack@ =~= old(self).stack@.drop_last());
        assert(old(self).stack@.drop_last().push(frame) =~= old(self).stack@);
        match frame {
            Frame::Logical(x) => self.continue_logical(x, value),
            Frame::Unary(x) => self.continue_unary(x, value),
            Frame::BinaryLeft(x) => {
                self.push(Frame::BinaryRight(x, value));
                self.turn_to(&*x.right)
            },
            Frame::BinaryRight(x, left) => self.continue_binary(x, left, value),
            Frame::Callee(x) => self.continue_call(x, value, Vec::new()),
            Frame::Argument(x, callee, arguments) => {
                let mut arguments = arguments;
                arguments.push(value);
                self.continue_call(x, callee, arguments)
            },
            Frame::Assign(x) => self.continue_assign(x, value),
            Frame::Get(x) => self.visit_get_expr(x, value),
            Frame::SetObject(x) => self.continue_set_object(x, value),
            Frame::SetValue(x, instance) => self.visit_set_expr(x, instance, value),
            Frame::Discard => self.done(),
            Frame::Print => self.visit_print_stmt(value),
            Frame::Define(x) => self.visit_variable_stmt(x, value),
            Frame::Branch(x) => self.visit_if_stmt(x, value),
            Frame::Loop(x) => self.visit_while_stmt(x, value),
            Frame::Return => {
                self.control = Control::Returning(value);
                Action::Continue
            },
            Frame::Construct(instance) => self.give(RuntimeValue::LoxInstance(instance)),
            Frame::Again(x) => {
                self.push(Frame::Again(x));
                self.done()
            },
            Frame::Sequence(statements, next) => {
                self.push(Frame::Sequence(statements, next));
                self.done()
            },
            Frame::Restore(environment) => {
                self.push(Frame::Restore(environment));
                self.done()
            },
            Frame::Call(function, previous) => {
                self.push(Frame::Call(function, previous));
                self.done()
            },
        }
    }

    /// Goes on after a statement with what the stack says is left to do.
    fn complete(&mut self) -> (r: Action)
        requires
            old(self).wf(),
        ensures
            final(self).wf(),
            final(self).fits(r),
            final(self).grown_from(old(self)),
            final(self).completed(old(self), r),
    {
        let frame = match self.stack.pop() {
            Some(frame) => frame,
            None => {
                self.environment = self.globals;
                self.control = Control::Idle;
                return Action::Finished;
            },
        };
        assert(old(self).frame_ok(frame));
        assert(forall|i: int|
            0 <= i < self.stack@.len() ==> self.stack@[i] == old(self).stack@[i]);
        assert(self.stack@ =~= old(self).stack@.drop_last());
        match frame {
            Frame::Sequence(statements, next) => {
                if next < statements.len() {
                    self.push(Frame::Sequence(statements, next + 1));
                    self.turn_to_statement(&statements[next])
                } else {
                    self.done()
                }
            },
            Frame::Again(x) => {
                self.push(Frame::Loop(x));
                self.turn_to(&x.condition)
            },
            Frame::Restore(environment) => {
                self.environment = environment;
                self.done()
            },
            Frame::Call(function, previous) => self.leave(function, previous, None),
            Frame::Construct(instance) => self.give(RuntimeValue::LoxInstance(instance)),
            _ => self.done(),
        }
    }

    /// Takes a `return` one frame further towards its function: a block
    /// on the way is left, and the call of the innermost function ends
    /// with the value returned.  A `return` that reaches the end of the
    /// stack is an error.
    fn unwind(&mut self, value: RuntimeValue) -> (r: Action)
        requires
            old(self).wf(),
            old(self).heap.value_ok(value),
        ensures
            final(self).wf(),
            final(self).fits(r),
            final(self).grown_from(old(self)),
            final(self).unwound(old(self), value, r),
    {
        let frame = match self.stack.pop() {
            Some(frame) => frame,
            None => {
                return self.fail(RuntimeError::NonErrorReturnShortCircuit { value });
            },
        };
        assert(old(self).frame_ok(frame));
        assert(forall|i: int|
            0 <= i < self.stack@.len() ==> self.stack@[i] == old(self).stack@[i]);
        assert(self.stack@ =~= old(self).stack@.drop_last());
        match frame {
            Frame::Restore(environment) => {
                self.environment = environment;
                self.control = Control::Returning(value);
                Action::Continue
            },
            Frame::Call(function, previous) => self.leave(function, previous, Some(value)),
            _ => {
                self.control = Control::Returning(value);
                Action::Continue
            },
        }
    }

    /// Makes one move.
    pub fn step(&mut self) -> (r: Action)
        requires
            old(self).wf(),
            !old(self).awaiting(),
        ensures
            final(self).wf(),
            final(self).fits(r),
            final(self).grown_from(old(self)),
            final(self).stepped(old(self), r),
    {
        let mut control = Control::Idle;
        std::mem::swap(&mut control, &mut self.control);
        match control {
            Control::Idle => {
                self.stack.clear();
                self.environment = self.globals;
                Action::Finished
            },
            Control::Execute(stmt) => self.execute(stmt),
            Control::Evaluate(expr) => self.evaluate(expr),
            Control::Value(value) => self.deliver(value),
            Control::Completed => self.complete(),
            Control::Returning(value) => self.unwind(value),
            Control::AwaitNumber => Action::Finished,
            Control::AwaitText => Action::Finished,
        }
    }

    /// Takes the number that the host owes: it is the value of what was
    /// being evaluated.
    pub fn number(&mut self, bits: u64)
        requires
            old(self).wf(),
            old(self).control is AwaitNumber,
        ensures
            final(self).wf(),
            final(self).grown_from(old(self)),
            final(self).same_memory(old(self)),
            final(self).valued(old(self).stack@, RuntimeValue::Number(bits)),
    {
        self.control = Control::Value(RuntimeValue::Number(bits));
    }

    /// Takes the text that the host owes for a number that is printed: the
    /// line to print is that text without a final `.0`.
    pub fn text(&mut self, written: &str)
        requires
            old(self).wf(),
            old(self).control is AwaitText,
        ensures
            final(self).wf(),
            final(self).grown_from(old(self)),
            final(self).same_memory(old(self)),
            final(self).stack == old(self).stack,
            final(self).control matches Control::Value(RuntimeValue::String(line)) && line@
                == printed(written@),
    {
        self.control = Control::Value(RuntimeValue::String(number_text(written)));
    }

    /// In the trace, state `i + 1` comes from state `i` by a move that
    /// needed nothing of the host.
    pub open spec fn linked(trace: Seq<Interpreter<'a>>, i: int) -> bool {
        trace[i + 1].stepped(&trace[i], Action::Continue)
    }

    /// The machine is where `moves` moves that needed nothing of the host
    /// take the machine `before`.
    pub open spec fn reached(&self, before: &Interpreter<'a>, moves: nat) -> bool {
        exists|trace: Seq<Interpreter<'a>>|
            {
                &&& #[trigger] trace.len() == moves + 1
                &&& trace[0] == *before
                &&& trace[moves as int] == *self
                &&& forall|i: int| 0 <= i < moves ==> #[trigger] Self::linked(trace, i)
            }
    }

    /// No move leaves the machine where it is.
    pub proof fn lemma_no_move(&self)
        ensures
            self.reached(self, 0),
    {
        let trace = seq![*self];
        assert(trace.len() == 1);
    }

    /// One more move that needs nothing of the host.
    pub proof fn lemma_one_more_move(&self, mid: &Interpreter<'a>, before: &Interpreter<'a>, moves: nat)
        requires
            mid.reached(before, moves),
            self.stepped(mid, Action::Continue),
        ensures
            self.reached(before, moves + 1),
    {
        let trace = choose|trace: Seq<Interpreter<'a>>|
            {
                &&& #[trigger] trace.len() == moves + 1
                &&& trace[0] == *before
                &&& trace[moves as int] == *mid
                &&& forall|i: int| 0 <= i < moves ==> #[trigger] Self::linked(trace, i)
            };
        let longer = trace.push(*self);
        assert(longer.len() == (moves + 1) + 1);
        assert forall|i: int| 0 <= i < moves + 1 implies #[trigger] Self::linked(longer, i) by {
            if i < moves {
                assert(Self::linked(trace, i));
            }
        }
    }

    /// Makes moves until the host is needed, at most `fuel` of them.
    /// `Continue` says that the moves ran out; any other action is that of
    /// the last move, and the moves before it needed nothing of the host.
    pub fn run(&mut self, fuel: u64) -> (r: Action)
        requires
            old(self).wf(),
            !old(self).awaiting(),
        ensures
            final(self).wf(),
            final(self).grown_from(old(self)),
            final(self).fits(r),
            r is Continue ==> final(self).reached(old(self), fuel as nat),
            !(r is Continue) ==> exists|mid: Interpreter<'a>, moves: nat| #[trigger]
                mid.reached(old(self), moves) && moves < fuel && final(self).stepped(&mid, r),
    {
        let mut left = fuel;
        proof {
            self.lemma_no_move();
        }
        while left > 0
            invariant
                self.wf(),
                !self.awaiting(),
                self.grown_from(old(self)),
                left <= fuel,
                self.reached(old(self), (fuel - left) as nat),
            decreases left,
        {
            let ghost mid = *self;
            let action = self.step();
            match action {
                Action::Continue => {},
                _ => {
                    assert(mid.reached(old(self), (fuel - left) as nat) && self.stepped(
                        &mid,
                        action,
                    ));
                    return action;
                },
            }
            proof {
                self.lemma_one_more_move(&mid, old(self), (fuel - left) as nat);
            }
            left = left - 1;
        }
        Action::Continue
    }
}

/// Short-circuit: where the left operand decides, a falsy one under `and`
/// and a truthy one under `or`, the value of the left operand is the
/// value of the whole, and the right operand is not evaluated.
pub proof fn lemma_short_circuit<'a>(
    after: Interpreter<'a>,
    before: Interpreter<'a>,
    expr: LogicalExpr,
    left: RuntimeValue,
)
    requires
        after.after_logical(&before, before.stack@, expr, left),
        if expr.operator.token_type is Or {
            left.truthy()
        } else {
            !left.truthy()
        },
    ensures
        after.control == Control::<'a>::Value(left),
        !(after.control is Evaluate),
        after.stack@ == before.stack@,
{
}

/// Where the left operand does not decide, the right operand is evaluated
/// next, and nothing else.
pub proof fn lemma_no_short_circuit<'a>(
    after: Interpreter<'a>,
    before: Interpreter<'a>,
    expr: LogicalExpr,
    left: RuntimeValue,
)
    requires
        after.after_logical(&before, before.stack@, expr, left),
        if expr.operator.token_type is Or {
            !left.truthy()
        } else {
            left.truthy()
        },
    ensures
        after.control == Control::Evaluate(&*expr.right),
        after.stack@ == before.stack@,
{
}

/// An initializer results in the receiver: whatever its body returns, and
/// whether it returns at all, the call has the value that the closure of
/// the initializer binds `this` to.
pub proof fn lemma_initializer_result<'a>(
    heap: Heap<'a>,
    function: int,
    returned: Option<RuntimeValue>,
    other: Option<RuntimeValue>,
)
    requires
        heap.functions@[function].is_initializer,
    ensures
        call_result(heap, function, returned) == call_result(heap, function, other),
        heap.environments@[heap.functions@[function].closure as int].values@.contains_key("this"@)
            ==> call_result(heap, function, returned) == Some(
            heap.environments@[heap.functions@[function].closure as int].values@["this"@],
        ),
{
}

/// The initializer of a class, bound to a new instance, results in that
/// instance.
pub proof fn lemma_bound_initializer_returns_instance<'a>(
    after: Heap<'a>,
    before: Heap<'a>,
    method: int,
    instance: usize,
    returned: Option<RuntimeValue>,
)
    requires
        0 <= method < before.functions@.len(),
        before.functions@[method].is_initializer,
        crate::heap::bound(after, before, method, instance),
    ensures
        call_result(after, before.functions@.len() as int, returned) == Some(
            RuntimeValue::LoxInstance(instance),
        ),
{
    let made = after.functions@[before.functions@.len() as int];
    assert(after.environments.len() == before.environments@.len() + 1);
    assert(made.closure == before.environments@.len());
    assert(after.environments@[made.closure as int].values@.contains_key("this"@));
}

/// A function that is no initializer results in what its body returns, or
/// in `nil` if the body returns nothing.
pub proof fn lemma_function_result<'a>(heap: Heap<'a>, function: int, value: RuntimeValue)
    requires
        !heap.functions@[function].is_initializer,
    ensures
        call_result(heap, function, Some(value)) == Some(value),
        call_result(heap, function, None) == Some(RuntimeValue::Nil),
{
}

/// The distances are monotone: a distance that has been recorded for an
/// expression stays when another is recorded.
pub proof fn lemma_recorded_distance_stays(
    before: Map<usize, usize>,
    id: usize,
    other: usize,
    depth: usize,
)
    requires
        before.contains_key(id),
    ensures
        ({
            let after = if before.contains_key(other) {
                before
            } else {
                before.insert(other, depth)
            };
            after.contains_key(id) && after[id] == before[id]
        }),
{
}

} // verus!
