//! The resolver: a pass over the statements that finds, for each use of a
//! variable, how many scopes out from the use the variable is declared.
use vstd::prelude::*;
use vstd::hash_map::StringHashMap;
use crate::ast::expr::{
    AssignmentExpr, BinaryExpr, CallExpr, Expr, ExprVisitor, GetExpr, GroupingExpr, LiteralExpr,
    LogicalExpr, SetExpr, ThisExpr, UnaryExpr, VariableExpr,
};
use crate::ast::stmt::{
    BlockStmt, ClassStmt, ExpressionStmt, FunctionStmt, IfStmt, PrintStmt, ReturnStmt, Stmt,
    StmtVisitor, VariableStmt, WhileStmt,
};
use crate::environment::{ancestor_of, read, Environment};
use crate::grammar::diagnostic;
use crate::lox::token_error;
use crate::string::text_eq;
use crate::token::Token;

verus! {

/// What kind of function encloses the code being resolved.
#[derive(Clone, Copy, Debug, PartialEq, Eq, Structural)]
pub enum FunctionType {
    TopLevel,
    Function,
    Initializer,
    Method,
}

/// Whether a class encloses the code being resolved.
#[derive(Clone, Copy, Debug, PartialEq, Eq, Structural)]
pub enum ClassType {
    TopLevel,
    Class,
}

/// The state of a resolution as plain values: the scopes from the outermost
/// to the innermost, each a map from a name to whether it is defined yet;
/// the kinds of the enclosing function and class; the distances found so
/// far, each with the identity of its expression; and the diagnostics.
pub struct Resolution {
    pub scopes: Seq<Map<Seq<char>, bool>>,
    pub function: FunctionType,
    pub class: ClassType,
    pub resolved: Seq<(usize, usize)>,
    pub errors: Seq<Seq<char>>,
}

/// How many scopes out from the innermost the nearest scope lies that
/// holds `name`.
pub open spec fn distance_of(scopes: Seq<Map<Seq<char>, bool>>, name: Seq<char>) -> Option<nat>
    decreases scopes.len(),
{
    if scopes.len() == 0 {
        None
    } else if scopes.last().contains_key(name) {
        Some(0)
    } else {
        match distance_of(scopes.drop_last(), name) {
            Some(d) => Some(d + 1),
            None => None,
        }
    }
}

impl Resolution {
    pub open spec fn begin_scope(self) -> Resolution {
        Resolution { scopes: self.scopes.push(Map::empty()), ..self }
    }

    pub open spec fn end_scope(self) -> Resolution {
        if self.scopes.len() > 0 {
            Resolution { scopes: self.scopes.drop_last(), ..self }
        } else {
            self
        }
    }

    /// The innermost scope holds `name` as given.
    pub open spec fn put(self, name: Seq<char>, defined: bool) -> Resolution {
        if self.scopes.len() > 0 {
            Resolution {
                scopes: self.scopes.update(
                    self.scopes.len() - 1,
                    self.scopes.last().insert(name, defined),
                ),
                ..self
            }
        } else {
            self
        }
    }

    pub open spec fn report(self, token: Token, message: Seq<char>) -> Resolution {
        Resolution { errors: self.errors.push(diagnostic(token, message)), ..self }
    }

    /// The name is declared in the innermost scope and not defined yet.
    /// Outside of all scopes nothing happens; a second declaration in one
    /// scope is reported.
    pub open spec fn declare(self, name: Token) -> Resolution {
        if self.scopes.len() > 0 && self.scopes.last().contains_key(name.lexeme@) {
            self.report(name, "Already a variable with this name in this scope."@).put(
                name.lexeme@,
                false,
            )
        } else {
            self.put(name.lexeme@, false)
        }
    }

    /// The name is defined in the innermost scope.
    pub open spec fn define(self, name: Token) -> Resolution {
        self.put(name.lexeme@, true)
    }

    /// The distance of `name` is recorded for the expression `id`, if a
    /// scope holds the name; else the name is left to the globals.
    pub open spec fn resolve_local(self, id: usize, name: Token) -> Resolution {
        match distance_of(self.scopes, name.lexeme@) {
            Some(d) => if d <= usize::MAX {
                Resolution { resolved: self.resolved.push((id, d as usize)), ..self }
            } else {
                self
            },
            None => self,
        }
    }

    /// A variable that is read where it is declared and not defined yet is
    /// reported.
    pub open spec fn check_read(self, name: Token) -> Resolution {
        if self.scopes.len() > 0 && self.scopes.last().contains_key(name.lexeme@)
            && !self.scopes.last()[name.lexeme@] {
            self.report(name, "Can't read local variable in its own initializer."@)
        } else {
            self
        }
    }

    /// A `return` is reported outside of all functions.
    pub open spec fn check_return(self, keyword: Token) -> Resolution {
        if self.function is TopLevel {
            self.report(keyword, "Can't return from top-level code."@)
        } else {
            self
        }
    }

    /// A `return` with a value is reported in an initializer.
    pub open spec fn check_return_value(self, keyword: Token) -> Resolution {
        if self.function is Initializer {
            self.report(keyword, "Can't return a value from an initializer."@)
        } else {
            self
        }
    }

    pub open spec fn in_function(self, function: FunctionType) -> Resolution {
        Resolution { function, ..self }
    }

    pub open spec fn in_class(self, class: ClassType) -> Resolution {
        Resolution { class, ..self }
    }

    /// A use of `this`: reported outside of a class, else resolved like a
    /// variable.
    pub open spec fn this(self, id: usize, keyword: Token) -> Resolution {
        if self.class is TopLevel {
            self.report(keyword, "Can't use 'this' outside of a class."@)
        } else {
            self.resolve_local(id, keyword)
        }
    }

    /// The resolution at the start of the body of a class: the class is
    /// declared and defined, and a scope holds `this`.
    pub open spec fn enter_class(self, name: Token) -> Resolution {
        self.in_class(ClassType::Class).declare(name).define(name).begin_scope().put(
            "this"@,
            true,
        )
    }

    /// Each parameter is declared and defined, in order.
    pub open spec fn with_params(self, params: Seq<Token>) -> Resolution
        decreases params.len(),
    {
        if params.len() == 0 {
            self
        } else {
            self.with_params(params.drop_last()).declare(params.last()).define(params.last())
        }
    }
}

/// The kind of function that a method of this name is.
pub open spec fn method_type(name: Seq<char>) -> FunctionType {
    if name == "init"@ {
        FunctionType::Initializer
    } else {
        FunctionType::Method
    }
}

/// The resolution after an expression: after its parts, in the order in
/// which they are evaluated.
#[verifier::opaque]
pub open spec fn resolve_expr(r: Resolution, e: Expr) -> Resolution
    decreases e, 1int,
{
    match e {
        Expr::Literal(_) => r,
        Expr::Logical(x) => resolve_expr(resolve_expr(r, *x.left), *x.right),
        Expr::Unary(x) => resolve_expr(r, *x.right),
        Expr::Binary(x) => resolve_expr(resolve_expr(r, *x.left), *x.right),
        Expr::Call(x) => resolve_exprs(resolve_expr(r, *x.callee), x.arguments@),
        Expr::Grouping(x) => resolve_expr(r, *x.expr),
        Expr::Variable(x) => r.check_read(x.name).resolve_local(x.id, x.name),
        Expr::Assignment(x) => resolve_expr(r, *x.value).resolve_local(x.id, x.name),
        Expr::Get(x) => resolve_expr(r, *x.object),
        Expr::SetProperty(x) => resolve_expr(resolve_expr(r, *x.value), *x.object),
        Expr::This(x) => r.this(x.id, x.keyword),
    }
}

/// The resolution after the expressions of a list, in order.
#[verifier::opaque]
pub open spec fn resolve_exprs(r: Resolution, es: Seq<Expr>) -> Resolution
    decreases es, 2int,
{
    if es.len() == 0 {
        r
    } else {
        resolve_expr(resolve_exprs(r, es.drop_last()), es.last())
    }
}

/// The resolution after a statement.
#[verifier::opaque]
pub open spec fn resolve_stmt(r: Resolution, s: Stmt) -> Resolution
    decreases s, 1int,
{
    match s {
        Stmt::Block(x) => resolve_stmts(r.begin_scope(), x.stmts@).end_scope(),
        Stmt::Expression(x) => resolve_expr(r, x.expr),
        Stmt::Print(x) => resolve_expr(r, x.expr),
        Stmt::Variable(x) => match x.initializer {
            Some(e) => resolve_expr(r.declare(x.name), e).define(x.name),
            None => r.declare(x.name).define(x.name),
        },
        Stmt::If(x) => match x.else_branch {
            Some(e) => resolve_stmt(
                resolve_stmt(resolve_expr(r, x.condition), *x.then_branch),
                *e,
            ),
            None => resolve_stmt(resolve_expr(r, x.condition), *x.then_branch),
        },
        Stmt::While(x) => resolve_stmt(resolve_expr(r, x.condition), *x.body),
        Stmt::Function(x) => resolve_function(
            r.declare(x.name).define(x.name),
            x,
            FunctionType::Function,
        ),
        Stmt::Return(x) => match x.value {
            Some(e) => resolve_expr(
                r.check_return(x.keyword).check_return_value(x.keyword),
                e,
            ),
            None => r.check_return(x.keyword),
        },
        Stmt::Class(x) => resolve_methods(r.enter_class(x.name), x.methods@).end_scope().in_class(
            r.class,
        ),
    }
}

/// The resolution after the statements of a list, in order.
#[verifier::opaque]
pub open spec fn resolve_stmts(r: Resolution, ss: Seq<Stmt>) -> Resolution
    decreases ss, 2int,
{
    if ss.len() == 0 {
        r
    } else {
        resolve_stmt(resolve_stmts(r, ss.drop_last()), ss.last())
    }
}

/// The resolution after a function of the given kind: its parameters and
/// its body in a scope of their own.
#[verifier::opaque]
pub open spec fn resolve_function(r: Resolution, f: FunctionStmt, kind: FunctionType) -> Resolution
    decreases f, 3int,
{
    resolve_stmts(r.in_function(kind).begin_scope().with_params(f.params@), f.body@)
        .end_scope().in_function(r.function)
}

/// The resolution after the methods of a class, in order.
#[verifier::opaque]
pub open spec fn resolve_methods(r: Resolution, fs: Seq<FunctionStmt>) -> Resolution
    decreases fs, 4int,
{
    if fs.len() == 0 {
        r
    } else {
        resolve_function(
            resolve_methods(r, fs.drop_last()),
            fs.last(),
            method_type(fs.last().name.lexeme@),
        )
    }
}

/// What [`resolve_expr`] is.
pub proof fn lemma_resolve_expr(r: Resolution, e: Expr)
    ensures
        resolve_expr(r, e) == match e {
            Expr::Literal(_) => r,
            Expr::Logical(x) => resolve_expr(resolve_expr(r, *x.left), *x.right),
            Expr::Unary(x) => resolve_expr(r, *x.right),
            Expr::Binary(x) => resolve_expr(resolve_expr(r, *x.left), *x.right),
            Expr::Call(x) => resolve_exprs(resolve_expr(r, *x.callee), x.arguments@),
            Expr::Grouping(x) => resolve_expr(r, *x.expr),
            Expr::Variable(x) => r.check_read(x.name).resolve_local(x.id, x.name),
            Expr::Assignment(x) => resolve_expr(r, *x.value).resolve_local(x.id, x.name),
            Expr::Get(x) => resolve_expr(r, *x.object),
            Expr::SetProperty(x) => resolve_expr(resolve_expr(r, *x.value), *x.object),
            Expr::This(x) => r.this(x.id, x.keyword),
        },
{
    reveal_with_fuel(resolve_expr, 1);
    reveal_with_fuel(resolve_exprs, 1);
}

/// What [`resolve_stmt`] is.
pub proof fn lemma_resolve_stmt(r: Resolution, s: Stmt)
    ensures
        resolve_stmt(r, s) == match s {
            Stmt::Block(x) => resolve_stmts(r.begin_scope(), x.stmts@).end_scope(),
            Stmt::Expression(x) => resolve_expr(r, x.expr),
            Stmt::Print(x) => resolve_expr(r, x.expr),
            Stmt::Variable(x) => match x.initializer {
                Some(e) => resolve_expr(r.declare(x.name), e).define(x.name),
                None => r.declare(x.name).define(x.name),
            },
            Stmt::If(x) => match x.else_branch {
                Some(e) => resolve_stmt(
                    resolve_stmt(resolve_expr(r, x.condition), *x.then_branch),
                    *e,
                ),
                None => resolve_stmt(resolve_expr(r, x.condition), *x.then_branch),
            },
            Stmt::While(x) => resolve_stmt(resolve_expr(r, x.condition), *x.body),
            Stmt::Function(x) => resolve_function(
                r.declare(x.name).define(x.name),
                x,
                FunctionType::Function,
            ),
            Stmt::Return(x) => match x.value {
                Some(e) => resolve_expr(
                    r.check_return(x.keyword).check_return_value(x.keyword),
                    e,
                ),
                None => r.check_return(x.keyword),
            },
            Stmt::Class(x) => resolve_methods(r.enter_class(x.name), x.methods@).end_scope().in_class(
                r.class,
            ),
        },
{
    reveal_with_fuel(resolve_stmt, 1);
    reveal_with_fuel(resolve_stmts, 1);
    reveal_with_fuel(resolve_function, 1);
    reveal_with_fuel(resolve_methods, 1);
}

pub proof fn lemma_resolve_exprs(r: Resolution, es: Seq<Expr>, last: Expr)
    ensures
        resolve_exprs(r, Seq::empty()) == r,
        resolve_exprs(r, es.push(last)) == resolve_expr(resolve_exprs(r, es), last),
{
    reveal_with_fuel(resolve_exprs, 1);
    reveal_with_fuel(resolve_expr, 1);
    assert(es.push(last).drop_last() =~= es);
}

pub proof fn lemma_resolve_stmts(r: Resolution, ss: Seq<Stmt>, last: Stmt)
    ensures
        resolve_stmts(r, Seq::empty()) == r,
        resolve_stmts(r, ss.push(last)) == resolve_stmt(resolve_stmts(r, ss), last),
{
    reveal_with_fuel(resolve_stmts, 1);
    reveal_with_fuel(resolve_stmt, 1);
    assert(ss.push(last).drop_last() =~= ss);
}

pub proof fn lemma_resolve_function(r: Resolution, f: FunctionStmt, kind: FunctionType)
    ensures
        resolve_function(r, f, kind) == resolve_stmts(
            r.in_function(kind).begin_scope().with_params(f.params@),
            f.body@,
        ).end_scope().in_function(r.function),
{
    reveal_with_fuel(resolve_function, 1);
    reveal_with_fuel(resolve_stmts, 1);
}

pub proof fn lemma_resolve_methods(r: Resolution, fs: Seq<FunctionStmt>, last: FunctionStmt)
    ensures
        resolve_methods(r, Seq::empty()) == r,
        resolve_methods(r, fs.push(last)) == resolve_function(
            resolve_methods(r, fs),
            last,
            method_type(last.name.lexeme@),
        ),
{
    reveal_with_fuel(resolve_methods, 1);
    reveal_with_fuel(resolve_function, 1);
    assert(fs.push(last).drop_last() =~= fs);
}

/// The scopes as plain values.
pub open spec fn scope_views(scopes: Seq<StringHashMap<bool>>) -> Seq<Map<Seq<char>, bool>> {
    scopes.map_values(|m: StringHashMap<bool>| m@)
}

/// The resolver's state: the scopes from the outermost to the innermost,
/// the kinds of the enclosing function and class, the distances found so
/// far, and the diagnostics.
pub struct Resolver {
    scopes: Vec<StringHashMap<bool>>,
    current_function: FunctionType,
    current_class: ClassType,
    resolved: Vec<(usize, usize)>,
    errors: Vec<String>,
}

impl Resolver {
    /// The state as plain values.
    pub closed spec fn model(&self) -> Resolution {
        Resolution {
            scopes: scope_views(self.scopes@),
            function: self.current_function,
            class: self.current_class,
            resolved: self.resolved@,
            errors: self.errors.deep_view(),
        }
    }

    /// A resolver at the top level: no scope, no function, no class, and
    /// nothing found or reported.
    pub open spec fn initial() -> Resolution {
        Resolution {
            scopes: Seq::empty(),
            function: FunctionType::TopLevel,
            class: ClassType::TopLevel,
            resolved: Seq::empty(),
            errors: Seq::empty(),
        }
    }

    pub fn new() -> (r: Self)
        ensures
            r.model() == Self::initial(),
    {
        let r = Resolver {
            scopes: Vec::new(),
            current_function: FunctionType::TopLevel,
            current_class: ClassType::TopLevel,
            resolved: Vec::new(),
            errors: Vec::new(),
        };
        assert(r.model().scopes =~= Seq::empty());
        assert(r.model().errors =~= Seq::empty());
        r
    }

    /// Resolves the statements in order.
    pub fn resolve(&mut self, statements: &Vec<Stmt>)
        ensures
            final(self).model() == resolve_stmts(old(self).model(), statements@),
    {
        self.resolve_stmts(statements);
    }

    /// The distances found so far: each with the identity of its
    /// expression, in the order in which they were found.
    pub fn resolved(&self) -> (r: &Vec<(usize, usize)>)
        ensures
            r@ == self.model().resolved,
    {
        &self.resolved
    }

    /// The diagnostics so far.
    pub fn errors(&self) -> (r: &Vec<String>)
        ensures
            r.deep_view() == self.model().errors,
    {
        &self.errors
    }

    fn begin_scope(&mut self)
        ensures
            final(self).model() == old(self).model().begin_scope(),
    {
        self.scopes.push(StringHashMap::new());
        assert(scope_views(self.scopes@) =~= scope_views(old(self).scopes@).push(Map::empty()));
    }

    fn end_scope(&mut self)
        ensures
            final(self).model() == old(self).model().end_scope(),
    {
        self.scopes.pop();
        assert(scope_views(self.scopes@) =~= old(self).model().end_scope().scopes);
    }

    /// Holds `name` in the innermost scope as given.
    fn put(&mut self, name: String, defined: bool)
        ensures
            final(self).model() == old(self).model().put(name@, defined),
    {
        let n = self.scopes.len();
        if n > 0 {
            self.scopes[n - 1].insert(name, defined);
            assert(scope_views(self.scopes@) =~= old(self).model().put(name@, defined).scopes);
        }
    }

    fn report(&mut self, token: &Token, message: &str)
        ensures
            final(self).model() == old(self).model().report(*token, message@),
    {
        proof {
            reveal(diagnostic);
        }
        let line = token_error(token, message);
        self.errors.push(line);
        assert(self.errors.deep_view() =~= old(self).errors.deep_view().push(
            diagnostic(*token, message@),
        ));
    }

    fn declare(&mut self, name: &Token)
        ensures
            final(self).model() == old(self).model().declare(*name),
    {
        let n = self.scopes.len();
        if n > 0 && self.scopes[n - 1].contains_key(name.lexeme.as_str()) {
            self.report(name, "Already a variable with this name in this scope.");
        }
        self.put(name.lexeme.clone(), false);
    }

    fn define(&mut self, name: &Token)
        ensures
            final(self).model() == old(self).model().define(*name),
    {
        self.put(name.lexeme.clone(), true);
    }

    /// How many scopes out from the scope before `upto` the nearest scope
    /// lies that holds `name`.
    fn distance(&self, name: &str, upto: usize) -> (r: Option<usize>)
        requires
            upto <= self.scopes@.len(),
        ensures
            match r {
                Some(d) => d < upto && distance_of(
                    scope_views(self.scopes@).take(upto as int),
                    name@,
                ) == Some(d as nat),
                None => distance_of(scope_views(self.scopes@).take(upto as int), name@) is None,
            },
        decreases upto,
    {
        let ghost scopes = scope_views(self.scopes@).take(upto as int);
        if upto == 0 {
            return None;
        }
        assert(scopes.drop_last() =~= scope_views(self.scopes@).take(upto - 1));
        if self.scopes[upto - 1].contains_key(name) {
            return Some(0);
        }
        match self.distance(name, upto - 1) {
            Some(d) => Some(d + 1),
            None => None,
        }
    }

    fn resolve_local(&mut self, id: usize, name: &Token)
        ensures
            final(self).model() == old(self).model().resolve_local(id, *name),
    {
        assert(scope_views(self.scopes@).take(self.scopes@.len() as int) =~= scope_views(
            self.scopes@,
        ));
        match self.distance(name.lexeme.as_str(), self.scopes.len()) {
            Some(d) => {
                self.resolved.push((id, d));
            },
            None => {},
        }
    }

    fn resolve_stmts(&mut self, statements: &Vec<Stmt>)
        ensures
            final(self).model() == resolve_stmts(old(self).model(), statements@),
        decreases statements,
    {
        let mut i: usize = 0;
        proof {
            lemma_resolve_stmts(self.model(), Seq::empty(), statements@[0]);
            assert(statements@.take(0) =~= Seq::empty());
        }
        while i < statements.len()
            invariant
                i <= statements@.len(),
                self.model() == resolve_stmts(old(self).model(), statements@.take(i as int)),
            decreases statements@.len() - i,
        {
            proof {
                lemma_resolve_stmts(old(self).model(), statements@.take(i as int), statements@[i as int]);
                assert(statements@.take(i as int).push(statements@[i as int]) =~= statements@.take(
                    i + 1,
                ));
            }
            self.resolve_stmt(&statements[i]);
            i += 1;
        }
        assert(statements@.take(i as int) =~= statements@);
    }

    fn resolve_exprs(&mut self, expressions: &Vec<Expr>)
        ensures
            final(self).model() == resolve_exprs(old(self).model(), expressions@),
        decreases expressions,
    {
        let mut i: usize = 0;
        proof {
            lemma_resolve_exprs(self.model(), Seq::empty(), expressions@[0]);
            assert(expressions@.take(0) =~= Seq::empty());
        }
        while i < expressions.len()
            invariant
                i <= expressions@.len(),
                self.model() == resolve_exprs(old(self).model(), expressions@.take(i as int)),
            decreases expressions@.len() - i,
        {
            proof {
                lemma_resolve_exprs(
                    old(self).model(),
                    expressions@.take(i as int),
                    expressions@[i as int],
                );
                assert(expressions@.take(i as int).push(expressions@[i as int])
                    =~= expressions@.take(i + 1));
            }
            self.resolve_expr(&expressions[i]);
            i += 1;
        }
        assert(expressions@.take(i as int) =~= expressions@);
    }

    fn resolve_methods(&mut self, methods: &Vec<FunctionStmt>)
        ensures
            final(self).model() == resolve_methods(old(self).model(), methods@),
        decreases methods,
    {
        let mut i: usize = 0;
        proof {
            lemma_resolve_methods(self.model(), Seq::empty(), methods@[0]);
            assert(methods@.take(0) =~= Seq::empty());
        }
        while i < methods.len()
            invariant
                i <= methods@.len(),
                self.model() == resolve_methods(old(self).model(), methods@.take(i as int)),
            decreases methods@.len() - i,
        {
            proof {
                lemma_resolve_methods(old(self).model(), methods@.take(i as int), methods@[i as int]);
                assert(methods@.take(i as int).push(methods@[i as int]) =~= methods@.take(i + 1));
            }
            let kind = if text_eq(methods[i].name.lexeme.as_str(), "init") {
                FunctionType::Initializer
            } else {
                FunctionType::Method
            };
            self.resolve_function(&methods[i], kind);
            i += 1;
        }
        assert(methods@.take(i as int) =~= methods@);
    }

    fn resolve_function(&mut self, function: &FunctionStmt, function_type: FunctionType)
        ensures
            final(self).model() == resolve_function(old(self).model(), *function, function_type),
        decreases function,
    {
        proof {
            lemma_resolve_function(self.model(), *function, function_type);
        }
        let enclosing_function = self.current_function;
        self.current_function = function_type;
        self.begin_scope();
        let ghost inner = self.model();
        let mut i: usize = 0;
        assert(function.params@.take(0) =~= Seq::empty());
        while i < function.params.len()
            invariant
                i <= function.params@.len(),
                self.model() == inner.with_params(function.params@.take(i as int)),
            decreases function.params@.len() - i,
        {
            assert(function.params@.take(i + 1).drop_last() =~= function.params@.take(i as int));
            self.declare(&function.params[i]);
            self.define(&function.params[i]);
            i += 1;
        }
        assert(function.params@.take(i as int) =~= function.params@);
        self.resolve_stmts(&function.body);
        self.end_scope();
        self.current_function = enclosing_function;
    }

    fn resolve_stmt(&mut self, stmt: &Stmt)
        ensures
            final(self).model() == resolve_stmt(old(self).model(), *stmt),
        decreases stmt,
    {
        proof {
            lemma_resolve_stmt(self.model(), *stmt);
        }
        match stmt {
            Stmt::Block(x) => {
                self.begin_scope();
                self.resolve_stmts(&x.stmts);
                self.end_scope();
            },
            Stmt::Expression(x) => {
                self.resolve_expr(&x.expr);
            },
            Stmt::Print(x) => {
                self.resolve_expr(&x.expr);
            },
            Stmt::Variable(x) => {
                self.resolve_variable_stmt(x);
            },
            Stmt::If(x) => {
                self.resolve_if_stmt(x);
            },
            Stmt::While(x) => {
                self.resolve_expr(&x.condition);
                self.resolve_stmt(&x.body);
            },
            Stmt::Function(x) => {
                self.declare(&x.name);
                self.define(&x.name);
                self.resolve_function(x, FunctionType::Function);
            },
            Stmt::Return(x) => {
                self.resolve_return_stmt(x);
            },
            Stmt::Class(x) => {
                self.resolve_class_stmt(x);
            },
        }
    }

    fn resolve_variable_stmt(&mut self, stmt: &VariableStmt)
        ensures
            final(self).model() == resolve_stmt(old(self).model(), Stmt::Variable(*stmt)),
        decreases stmt,
    {
        proof {
            lemma_resolve_stmt(self.model(), Stmt::Variable(*stmt));
        }
        self.declare(&stmt.name);
        if let Some(initializer) = &stmt.initializer {
            self.resolve_expr(initializer);
        }
        self.define(&stmt.name);
    }

    fn resolve_if_stmt(&mut self, stmt: &IfStmt)
        ensures
            final(self).model() == resolve_stmt(old(self).model(), Stmt::If(*stmt)),
        decreases stmt,
    {
        proof {
            lemma_resolve_stmt(self.model(), Stmt::If(*stmt));
        }
        self.resolve_expr(&stmt.condition);
        self.resolve_stmt(&stmt.then_branch);
        if let Some(else_branch) = &stmt.else_branch {
            self.resolve_stmt(else_branch);
        }
    }

    fn resolve_return_stmt(&mut self, stmt: &ReturnStmt)
        ensures
            final(self).model() == resolve_stmt(old(self).model(), Stmt::Return(*stmt)),
        decreases stmt,
    {
        proof {
            lemma_resolve_stmt(self.model(), Stmt::Return(*stmt));
        }
        if self.current_function == FunctionType::TopLevel {
            self.report(&stmt.keyword, "Can't return from top-level code.");
        }
        if let Some(value) = &stmt.value {
            if self.current_function == FunctionType::Initializer {
                self.report(&stmt.keyword, "Can't return a value from an initializer.");
            }
            self.resolve_expr(value);
        }
    }

    fn resolve_class_stmt(&mut self, stmt: &ClassStmt)
        ensures
            final(self).model() == resolve_stmt(old(self).model(), Stmt::Class(*stmt)),
        decreases stmt,
    {
        proof {
            lemma_resolve_stmt(self.model(), Stmt::Class(*stmt));
        }
        let enclosing_class = self.current_class;
        self.current_class = ClassType::Class;
        self.declare(&stmt.name);
        self.define(&stmt.name);
        self.begin_scope();
        self.put(String::from_str("this"), true);
        self.resolve_methods(&stmt.methods);
        self.end_scope();
        self.current_class = enclosing_class;
    }

    fn resolve_expr(&mut self, expr: &Expr)
        ensures
            final(self).model() == resolve_expr(old(self).model(), *expr),
        decreases expr,
    {
        proof {
            lemma_resolve_expr(self.model(), *expr);
        }
        match expr {
            Expr::Literal(_) => {},
            Expr::Logical(x) => {
                self.resolve_expr(&x.left);
                self.resolve_expr(&x.right);
            },
            Expr::Unary(x) => {
                self.resolve_expr(&x.right);
            },
            Expr::Binary(x) => {
                self.resolve_expr(&x.left);
                self.resolve_expr(&x.right);
            },
            Expr::Call(x) => {
                self.resolve_expr(&x.callee);
                self.resolve_exprs(&x.arguments);
            },
            Expr::Grouping(x) => {
                self.resolve_expr(&x.expr);
            },
            Expr::Variable(x) => {
                self.resolve_variable_expr(&x.name, x.id);
            },
            Expr::Assignment(x) => {
                self.resolve_expr(&x.value);
                self.resolve_local(x.id, &x.name);
            },
            Expr::Get(x) => {
                self.resolve_expr(&x.object);
            },
            Expr::SetProperty(x) => {
                self.resolve_expr(&x.value);
                self.resolve_expr(&x.object);
            },
            Expr::This(x) => {
                self.resolve_this_expr(&x.keyword, x.id);
            },
        }
    }

    fn resolve_variable_expr(&mut self, name: &Token, id: usize)
        ensures
            final(self).model() == old(self).model().check_read(*name).resolve_local(id, *name),
    {
        let n = self.scopes.len();
        if n > 0 {
            let declared_only = match self.scopes[n - 1].get(name.lexeme.as_str()) {
                Some(defined) => !*defined,
                None => false,
            };
            if declared_only {
                self.report(name, "Can't read local variable in its own initializer.");
            }
        }
        self.resolve_local(id, name);
    }

    fn resolve_this_expr(&mut self, keyword: &Token, id: usize)
        ensures
            final(self).model() == old(self).model().this(id, *keyword),
    {
        if self.current_class == ClassType::TopLevel {
            self.report(keyword, "Can't use 'this' outside of a class.");
            return ;
        }
        self.resolve_local(id, keyword);
    }
}

impl ExprVisitor<()> for Resolver {
    /// The visitor has resolved the expression.
    open spec fn visited(&self, before: &Self, expr: Expr, r: ()) -> bool {
        self.model() == resolve_expr(before.model(), expr)
    }

    fn visit_literal_expr(&mut self, expr: &LiteralExpr) {
        proof {
            lemma_resolve_expr(self.model(), Expr::Literal(*expr));
        }
    }

    fn visit_logical_expr(&mut self, expr: &LogicalExpr) {
        proof {
            lemma_resolve_expr(self.model(), Expr::Logical(*expr));
        }
        self.resolve_expr(&*expr.left);
        self.resolve_expr(&*expr.right);
    }

    fn visit_unary_expr(&mut self, expr: &UnaryExpr) {
        proof {
            lemma_resolve_expr(self.model(), Expr::Unary(*expr));
        }
        self.resolve_expr(&*expr.right);
    }

    fn visit_binary_expr(&mut self, expr: &BinaryExpr) {
        proof {
            lemma_resolve_expr(self.model(), Expr::Binary(*expr));
        }
        self.resolve_expr(&*expr.left);
        self.resolve_expr(&*expr.right);
    }

    fn visit_call_expr(&mut self, expr: &CallExpr) {
        proof {
            lemma_resolve_expr(self.model(), Expr::Call(*expr));
        }
        self.resolve_expr(&*expr.callee);
        self.resolve_exprs(&expr.arguments);
    }

    fn visit_grouping_expr(&mut self, expr: &GroupingExpr) {
        proof {
            lemma_resolve_expr(self.model(), Expr::Grouping(*expr));
        }
        self.resolve_expr(&*expr.expr);
    }

    fn visit_variable_expr(&mut self, expr: &VariableExpr) {
        proof {
            lemma_resolve_expr(self.model(), Expr::Variable(*expr));
        }
        self.resolve_variable_expr(&expr.name, expr.id);
    }

    fn visit_assignment_expr(&mut self, expr: &AssignmentExpr) {
        proof {
            lemma_resolve_expr(self.model(), Expr::Assignment(*expr));
        }
        self.resolve_expr(&*expr.value);
        self.resolve_local(expr.id, &expr.name);
    }

    fn visit_get_expr(&mut self, expr: &GetExpr) {
        proof {
            lemma_resolve_expr(self.model(), Expr::Get(*expr));
        }
        self.resolve_expr(&*expr.object);
    }

    fn visit_set_expr(&mut self, expr: &SetExpr) {
        proof {
            lemma_resolve_expr(self.model(), Expr::SetProperty(*expr));
        }
        self.resolve_expr(&*expr.value);
        self.resolve_expr(&*expr.object);
    }

    fn visit_this_expr(&mut self, expr: &ThisExpr) {
        proof {
            lemma_resolve_expr(self.model(), Expr::This(*expr));
        }
        self.resolve_this_expr(&expr.keyword, expr.id);
    }
}

impl StmtVisitor<()> for Resolver {
    /// The visitor has resolved the statement.
    open spec fn visited(&self, before: &Self, stmt: Stmt, r: ()) -> bool {
        self.model() == resolve_stmt(before.model(), stmt)
    }

    fn visit_block_stmt(&mut self, stmt: &BlockStmt) {
        proof {
            lemma_resolve_stmt(self.model(), Stmt::Block(*stmt));
        }
        self.begin_scope();
        self.resolve_stmts(&stmt.stmts);
        self.end_scope();
    }

    fn visit_expression_stmt(&mut self, stmt: &ExpressionStmt) {
        proof {
            lemma_resolve_stmt(self.model(), Stmt::Expression(*stmt));
        }
        self.resolve_expr(&stmt.expr);
    }

    fn visit_print_stmt(&mut self, stmt: &PrintStmt) {
        proof {
            lemma_resolve_stmt(self.model(), Stmt::Print(*stmt));
        }
        self.resolve_expr(&stmt.expr);
    }

    fn visit_variable_stmt(&mut self, stmt: &VariableStmt) {
        self.resolve_variable_stmt(stmt);
    }

    fn visit_if_stmt(&mut self, stmt: &IfStmt) {
        self.resolve_if_stmt(stmt);
    }

    fn visit_while_stmt(&mut self, stmt: &WhileStmt) {
        proof {
            lemma_resolve_stmt(self.model(), Stmt::While(*stmt));
        }
        self.resolve_expr(&stmt.condition);
        self.resolve_stmt(&*stmt.body);
    }

    fn visit_function_stmt(&mut self, stmt: &FunctionStmt) {
        proof {
            lemma_resolve_stmt(self.model(), Stmt::Function(*stmt));
        }
        self.declare(&stmt.name);
        self.define(&stmt.name);
        self.resolve_function(stmt, FunctionType::Function);
    }

    fn visit_return_stmt(&mut self, stmt: &ReturnStmt) {
        self.resolve_return_stmt(stmt);
    }

    fn visit_class_stmt(&mut self, stmt: &ClassStmt) {
        self.resolve_class_stmt(stmt);
    }
}

/// The resolver's result depends on the statements and on the state it
/// starts in, and on nothing else: two resolvers in one state that resolve
/// the same statements end in one state.
pub proof fn lemma_resolution_is_a_function(a: Resolution, b: Resolution, statements: Seq<Stmt>)
    requires
        a == b,
    ensures
        resolve_stmts(a, statements) == resolve_stmts(b, statements),
{
}

/// The chain of frames from `this` outwards mirrors the scopes from the
/// innermost outwards: frame by frame, a frame binds the names that the
/// scope holds.
pub open spec fn mirrors(
    frames: Seq<Environment>,
    this: int,
    scopes: Seq<Map<Seq<char>, bool>>,
) -> bool
    decreases scopes.len(),
{
    if scopes.len() == 0 {
        true
    } else {
        &&& 0 <= this < frames.len()
        &&& forall|name: Seq<char>| #[trigger]
            scopes.last().contains_key(name) ==> frames[this].values@.contains_key(name)
        &&& scopes.len() > 1 ==> {
            &&& frames[this].enclosing is Some
            &&& mirrors(frames, frames[this].enclosing->0 as int, scopes.drop_last())
        }
    }
}

/// Where the frames mirror the scopes, a variable that the resolver found
/// at a distance is read at that distance: the chain is that long, and the
/// frame there binds the name.  Reading at a distance follows exactly that
/// many links and looks into that one frame.
pub proof fn lemma_resolved_read_succeeds(
    frames: Seq<Environment>,
    this: int,
    scopes: Seq<Map<Seq<char>, bool>>,
    name: Token,
)
    requires
        mirrors(frames, this, scopes),
        distance_of(scopes, name.lexeme@) is Some,
    ensures
        ancestor_of(frames, this, distance_of(scopes, name.lexeme@)->0) is Some,
        read(
            frames,
            ancestor_of(frames, this, distance_of(scopes, name.lexeme@)->0)->0,
            name,
        ) is Ok,
    decreases scopes.len(),
{
    if scopes.len() > 0 && !scopes.last().contains_key(name.lexeme@) {
        lemma_resolved_read_succeeds(
            frames,
            frames[this].enclosing->0 as int,
            scopes.drop_last(),
            name,
        );
    }
}

/// The distance that the resolver finds is the nearest: no scope nearer
/// than it holds the name, and the scope at it does.
pub proof fn lemma_distance_is_nearest(scopes: Seq<Map<Seq<char>, bool>>, name: Seq<char>)
    ensures
        match distance_of(scopes, name) {
            Some(d) => {
                &&& d < scopes.len()
                &&& scopes[scopes.len() - 1 - d].contains_key(name)
                &&& forall|i: int| 0 <= i < d ==> !(#[trigger] scopes[scopes.len() - 1 - i]).contains_key(name)
            },
            None => forall|i: int| 0 <= i < scopes.len() ==> !(#[trigger] scopes[i]).contains_key(name),
        },
    decreases scopes.len(),
{
    if scopes.len() > 0 && !scopes.last().contains_key(name) {
        lemma_distance_is_nearest(scopes.drop_last(), name);
        let rest = scopes.drop_last();
        match distance_of(rest, name) {
            Some(d) => {
                assert forall|i: int| 0 <= i < d + 1 implies !(#[trigger] scopes[scopes.len() - 1
                    - i]).contains_key(name) by {
                    if i > 0 {
                        assert(scopes[scopes.len() - 1 - i] == rest[rest.len() - 1 - (i - 1)]);
                    }
                }
                assert(scopes[scopes.len() - 1 - (d + 1)] == rest[rest.len() - 1 - d]);
            },
            None => {
                assert forall|i: int| 0 <= i < scopes.len() implies !(#[trigger] scopes[i]).contains_key(
                    name,
                ) by {
                    if i < rest.len() {
                        assert(scopes[i] == rest[i]);
                    }
                }
            },
        }
    }
}

} // verus!
