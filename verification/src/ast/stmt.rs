//! Statements.
use vstd::prelude::*;
use crate::ast::expr::Expr;
use crate::ast::tree::{Tag, Tree};
use crate::token::{token_views, Token, TokenView};

verus! {

#[derive(Debug, PartialEq)]
pub enum Stmt {
    Block(BlockStmt),
    Expression(ExpressionStmt),
    Print(PrintStmt),
    Variable(VariableStmt),
    If(IfStmt),
    While(WhileStmt),
    Function(FunctionStmt),
    Return(ReturnStmt),
    Class(ClassStmt),
}

#[derive(Debug, PartialEq)]
pub struct BlockStmt {
    pub stmts: Vec<Stmt>,
}

#[derive(Debug, PartialEq)]
pub struct ExpressionStmt {
    pub expr: Expr,
}

#[derive(Debug, PartialEq)]
pub struct PrintStmt {
    pub expr: Expr,
}

#[derive(Debug, PartialEq)]
pub struct VariableStmt {
    pub name: Token,
    pub initializer: Option<Expr>,
}

#[derive(Debug, PartialEq)]
pub struct IfStmt {
    pub condition: Expr,
    pub then_branch: Box<Stmt>,
    pub else_branch: Option<Box<Stmt>>,
}

#[derive(Debug, PartialEq)]
pub struct WhileStmt {
    pub condition: Expr,
    pub body: Box<Stmt>,
}

#[derive(Debug, PartialEq)]
pub struct FunctionStmt {
    pub name: Token,
    pub params: Vec<Token>,
    pub body: Vec<Stmt>,
}

#[derive(Debug, PartialEq)]
pub struct ReturnStmt {
    pub keyword: Token,
    pub value: Option<Expr>,
}

/// A class declaration: its name and its methods in source order.
#[derive(Debug, PartialEq)]
pub struct ClassStmt {
    pub name: Token,
    pub methods: Vec<FunctionStmt>,
}

impl FunctionStmt {
    /// The declaration as a plain value.
    #[verifier::opaque]
    pub open spec fn tree(&self) -> Tree
        decreases self, 1int,
    {
        Tree {
            tag: Tag::Function,
            id: 0,
            tokens: seq![self.name@] + token_views(self.params@),
            kids: stmt_trees(self.body@),
        }
    }

    /// What [`FunctionStmt::tree`] is; as a statement the declaration has
    /// the same plain value.
    pub proof fn lemma_tree(&self)
        ensures
            self.tree() == (Tree {
                tag: Tag::Function,
                id: 0,
                tokens: seq![self.name@] + token_views(self.params@),
                kids: stmt_trees(self.body@),
            }),
    {
        reveal_with_fuel(FunctionStmt::tree, 1);
        reveal_with_fuel(stmt_trees, 1);
    }
}

impl Stmt {
    /// The kind of the statement's node.
    pub open spec fn tag(&self) -> Tag {
        match self {
            Stmt::Block(_) => Tag::Block,
            Stmt::Expression(_) => Tag::Expression,
            Stmt::Print(_) => Tag::Print,
            Stmt::Variable(_) => Tag::Var,
            Stmt::If(_) => Tag::If,
            Stmt::While(_) => Tag::While,
            Stmt::Function(_) => Tag::Function,
            Stmt::Return(_) => Tag::Return,
            Stmt::Class(_) => Tag::Class,
        }
    }

    /// The tokens that the statement's node keeps.
    pub open spec fn node_tokens(&self) -> Seq<TokenView> {
        match self {
            Stmt::Variable(s) => seq![s.name@],
            Stmt::Function(s) => seq![s.name@] + token_views(s.params@),
            Stmt::Return(s) => seq![s.keyword@],
            Stmt::Class(s) => seq![s.name@],
            _ => Seq::empty(),
        }
    }

    /// The plain values of the statement's children, in source order.
    pub open spec fn kids(&self) -> Seq<Tree>
        decreases self, 0int,
    {
        match self {
            Stmt::Block(s) => stmt_trees(s.stmts@),
            Stmt::Expression(s) => seq![s.expr.tree()],
            Stmt::Print(s) => seq![s.expr.tree()],
            Stmt::Variable(s) => match s.initializer {
                Some(e) => seq![e.tree()],
                None => Seq::empty(),
            },
            Stmt::If(s) => match s.else_branch {
                Some(e) => seq![s.condition.tree(), s.then_branch.tree(), e.tree()],
                None => seq![s.condition.tree(), s.then_branch.tree()],
            },
            Stmt::While(s) => seq![s.condition.tree(), s.body.tree()],
            Stmt::Function(s) => stmt_trees(s.body@),
            Stmt::Return(s) => match s.value {
                Some(e) => seq![e.tree()],
                None => Seq::empty(),
            },
            Stmt::Class(s) => function_trees(s.methods@),
        }
    }

    /// The statement as a plain value.
    #[verifier::opaque]
    pub open spec fn tree(&self) -> Tree
        decreases self, 1int,
    {
        Tree { tag: self.tag(), id: 0, tokens: self.node_tokens(), kids: self.kids() }
    }

    /// What [`Stmt::tree`] is.
    pub proof fn lemma_tree(&self)
        ensures
            self.tree() == (Tree {
                tag: self.tag(),
                id: 0,
                tokens: self.node_tokens(),
                kids: self.kids(),
            }),
    {
        reveal_with_fuel(Stmt::tree, 1);
    }
}

/// A visitor of statements: one method for each kind of statement.
pub trait StmtVisitor<R>: Sized {
    /// What a visit of `stmt` that started in `before` and resulted in `r`
    /// leaves the visitor as.
    spec fn visited(&self, before: &Self, stmt: Stmt, r: R) -> bool;

    fn visit_block_stmt(&mut self, stmt: &BlockStmt) -> (r: R)
        ensures
            final(self).visited(old(self), Stmt::Block(*stmt), r),
    ;

    fn visit_expression_stmt(&mut self, stmt: &ExpressionStmt) -> (r: R)
        ensures
            final(self).visited(old(self), Stmt::Expression(*stmt), r),
    ;

    fn visit_print_stmt(&mut self, stmt: &PrintStmt) -> (r: R)
        ensures
            final(self).visited(old(self), Stmt::Print(*stmt), r),
    ;

    fn visit_variable_stmt(&mut self, stmt: &VariableStmt) -> (r: R)
        ensures
            final(self).visited(old(self), Stmt::Variable(*stmt), r),
    ;

    fn visit_if_stmt(&mut self, stmt: &IfStmt) -> (r: R)
        ensures
            final(self).visited(old(self), Stmt::If(*stmt), r),
    ;

    fn visit_while_stmt(&mut self, stmt: &WhileStmt) -> (r: R)
        ensures
            final(self).visited(old(self), Stmt::While(*stmt), r),
    ;

    fn visit_function_stmt(&mut self, stmt: &FunctionStmt) -> (r: R)
        ensures
            final(self).visited(old(self), Stmt::Function(*stmt), r),
    ;

    fn visit_return_stmt(&mut self, stmt: &ReturnStmt) -> (r: R)
        ensures
            final(self).visited(old(self), Stmt::Return(*stmt), r),
    ;

    fn visit_class_stmt(&mut self, stmt: &ClassStmt) -> (r: R)
        ensures
            final(self).visited(old(self), Stmt::Class(*stmt), r),
    ;
}

/// What a visitor can visit: the statements and each kind of them.
pub trait StmtAccept<R, V: StmtVisitor<R>> {
    /// The statement that the visitor sees.
    spec fn as_stmt(&self) -> Stmt;

    /// Has the visitor visit this by the method for its kind.
    fn accept(&self, visitor: &mut V) -> (r: R)
        ensures
            final(visitor).visited(old(visitor), self.as_stmt(), r),
    ;
}

impl<R, V: StmtVisitor<R>> StmtAccept<R, V> for Stmt {
    open spec fn as_stmt(&self) -> Stmt {
        *self
    }

    fn accept(&self, visitor: &mut V) -> (r: R) {
        match self {
            Stmt::Block(stmt) => visitor.visit_block_stmt(stmt),
            Stmt::Expression(stmt) => visitor.visit_expression_stmt(stmt),
            Stmt::Print(stmt) => visitor.visit_print_stmt(stmt),
            Stmt::Variable(stmt) => visitor.visit_variable_stmt(stmt),
            Stmt::If(stmt) => visitor.visit_if_stmt(stmt),
            Stmt::While(stmt) => visitor.visit_while_stmt(stmt),
            Stmt::Function(stmt) => visitor.visit_function_stmt(stmt),
            Stmt::Return(stmt) => visitor.visit_return_stmt(stmt),
            Stmt::Class(stmt) => visitor.visit_class_stmt(stmt),
        }
    }
}

impl<R, V: StmtVisitor<R>> StmtAccept<R, V> for BlockStmt {
    open spec fn as_stmt(&self) -> Stmt {
        Stmt::Block(*self)
    }

    fn accept(&self, visitor: &mut V) -> (r: R) {
        visitor.visit_block_stmt(self)
    }
}

impl<R, V: StmtVisitor<R>> StmtAccept<R, V> for ExpressionStmt {
    open spec fn as_stmt(&self) -> Stmt {
        Stmt::Expression(*self)
    }

    fn accept(&self, visitor: &mut V) -> (r: R) {
        visitor.visit_expression_stmt(self)
    }
}

impl<R, V: StmtVisitor<R>> StmtAccept<R, V> for PrintStmt {
    open spec fn as_stmt(&self) -> Stmt {
        Stmt::Print(*self)
    }

    fn accept(&self, visitor: &mut V) -> (r: R) {
        visitor.visit_print_stmt(self)
    }
}

impl<R, V: StmtVisitor<R>> StmtAccept<R, V> for VariableStmt {
    open spec fn as_stmt(&self) -> Stmt {
        Stmt::Variable(*self)
    }

    fn accept(&self, visitor: &mut V) -> (r: R) {
        visitor.visit_variable_stmt(self)
    }
}

impl<R, V: StmtVisitor<R>> StmtAccept<R, V> for IfStmt {
    open spec fn as_stmt(&self) -> Stmt {
        Stmt::If(*self)
    }

    fn accept(&self, visitor: &mut V) -> (r: R) {
        visitor.visit_if_stmt(self)
    }
}

impl<R, V: StmtVisitor<R>> StmtAccept<R, V> for WhileStmt {
    open spec fn as_stmt(&self) -> Stmt {
        Stmt::While(*self)
    }

    fn accept(&self, visitor: &mut V) -> (r: R) {
        visitor.visit_while_stmt(self)
    }
}

impl<R, V: StmtVisitor<R>> StmtAccept<R, V> for FunctionStmt {
    open spec fn as_stmt(&self) -> Stmt {
        Stmt::Function(*self)
    }

    fn accept(&self, visitor: &mut V) -> (r: R) {
        visitor.visit_function_stmt(self)
    }
}

impl<R, V: StmtVisitor<R>> StmtAccept<R, V> for ReturnStmt {
    open spec fn as_stmt(&self) -> Stmt {
        Stmt::Return(*self)
    }

    fn accept(&self, visitor: &mut V) -> (r: R) {
        visitor.visit_return_stmt(self)
    }
}

impl<R, V: StmtVisitor<R>> StmtAccept<R, V> for ClassStmt {
    open spec fn as_stmt(&self) -> Stmt {
        Stmt::Class(*self)
    }

    fn accept(&self, visitor: &mut V) -> (r: R) {
        visitor.visit_class_stmt(self)
    }
}

/// The plain values of a list of statements.
#[verifier::opaque]
pub open spec fn stmt_trees(stmts: Seq<Stmt>) -> Seq<Tree>
    decreases stmts, 2int,
{
    if stmts.len() == 0 {
        Seq::empty()
    } else {
        stmt_trees(stmts.drop_last()).push(stmts.last().tree())
    }
}

/// The plain values of a list of function declarations.
#[verifier::opaque]
pub open spec fn function_trees(functions: Seq<FunctionStmt>) -> Seq<Tree>
    decreases functions, 2int,
{
    if functions.len() == 0 {
        Seq::empty()
    } else {
        function_trees(functions.drop_last()).push(functions.last().tree())
    }
}

/// The plain values of no statements.
pub proof fn lemma_stmt_trees_empty()
    ensures
        stmt_trees(Seq::empty()) == Seq::<Tree>::empty(),
{
    reveal_with_fuel(stmt_trees, 1);
}

/// The plain values of a list with one more statement.
pub proof fn lemma_stmt_trees_push(stmts: Seq<Stmt>, last: Stmt)
    ensures
        stmt_trees(stmts.push(last)) == stmt_trees(stmts).push(last.tree()),
{
    reveal_with_fuel(stmt_trees, 1);
    reveal_with_fuel(Stmt::tree, 1);
    assert(stmts.push(last).drop_last() =~= stmts);
}

/// The plain values of no function declarations.
pub proof fn lemma_function_trees_empty()
    ensures
        function_trees(Seq::empty()) == Seq::<Tree>::empty(),
{
    reveal_with_fuel(function_trees, 1);
}

/// The plain values of a list with one more function declaration.
pub proof fn lemma_function_trees_push(functions: Seq<FunctionStmt>, last: FunctionStmt)
    ensures
        function_trees(functions.push(last)) == function_trees(functions).push(last.tree()),
{
    reveal_with_fuel(function_trees, 1);
    reveal_with_fuel(FunctionStmt::tree, 1);
    assert(functions.push(last).drop_last() =~= functions);
}

} // verus!
