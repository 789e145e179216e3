//! Expressions.
use vstd::prelude::*;
use crate::ast::tree::{Tag, Tree};
use crate::token::{Token, TokenView};

verus! {

/// The identity of an expression node: the key of the resolver's table.
pub type ExprId = usize;

/// Hands out the next expression identity and advances the counter.
pub fn expr_id(counter: &mut usize) -> (id: usize)
    requires
        *old(counter) < usize::MAX,
    ensures
        id == *old(counter),
        *final(counter) == *old(counter) + 1,
{
    let id: usize = *counter;
    *counter = id + 1;
    id
}

#[derive(Debug, PartialEq)]
pub enum Expr {
    Literal(LiteralExpr),
    Logical(LogicalExpr),
    Unary(UnaryExpr),
    Binary(BinaryExpr),
    Call(CallExpr),
    Grouping(GroupingExpr),
    Variable(VariableExpr),
    Assignment(AssignmentExpr),
    Get(GetExpr),
    SetProperty(SetExpr),
    This(ThisExpr),
}

#[derive(Debug, PartialEq)]
pub struct LiteralExpr {
    pub id: ExprId,
    pub literal_type: LiteralExprType,
    pub token: Token,
}

#[derive(Debug, Clone, Copy, PartialEq, Eq, Structural)]
pub enum LiteralExprType {
    Number,
    String,
    True,
    False,
    Nil,
}

#[derive(Debug, PartialEq)]
pub struct LogicalExpr {
    pub id: ExprId,
    pub left: Box<Expr>,
    pub operator: Token,
    pub right: Box<Expr>,
}

#[derive(Debug, PartialEq)]
pub struct UnaryExpr {
    pub id: ExprId,
    pub op: (UnaryExprOp, Token),
    pub right: Box<Expr>,
}

#[derive(Debug, Clone, Copy, PartialEq, Eq, Structural)]
pub enum UnaryExprOp {
    Minus,
    Not,
}

#[derive(Debug, PartialEq)]
pub struct BinaryExpr {
    pub id: ExprId,
    pub left: Box<Expr>,
    pub op: (BinaryExprOp, Token),
    pub right: Box<Expr>,
}

#[derive(Debug, Clone, Copy, PartialEq, Eq, Structural)]
pub enum BinaryExprOp {
    EqualEqual,
    NotEqual,
    Less,
    LessEqual,
    Greater,
    GreaterEqual,
    Plus,
    Minus,
    Times,
    Divide,
}

#[derive(Debug, PartialEq)]
pub struct CallExpr {
    pub id: ExprId,
    pub callee: Box<Expr>,
    pub paren: Token,
    pub arguments: Vec<Expr>,
}

#[derive(Debug, PartialEq)]
pub struct GroupingExpr {
    pub id: ExprId,
    pub left: Token,
    pub expr: Box<Expr>,
    pub right: Token,
}

#[derive(Debug, PartialEq)]
pub struct VariableExpr {
    pub id: ExprId,
    pub name: Token,
}

#[derive(Debug, PartialEq)]
pub struct AssignmentExpr {
    pub id: ExprId,
    pub name: Token,
    pub value: Box<Expr>,
}

#[derive(Debug, PartialEq)]
pub struct GetExpr {
    pub id: ExprId,
    pub object: Box<Expr>,
    pub name: Token,
}

#[derive(Debug, PartialEq)]
pub struct SetExpr {
    pub id: ExprId,
    pub object: Box<Expr>,
    pub name: Token,
    pub value: Box<Expr>,
}

#[derive(Debug, PartialEq)]
pub struct ThisExpr {
    pub id: ExprId,
    pub keyword: Token,
}

impl Expr {
    /// The identity of the node.
    pub open spec fn spec_id(&self) -> usize {
        match self {
            Expr::Literal(e) => e.id,
            Expr::Logical(e) => e.id,
            Expr::Unary(e) => e.id,
            Expr::Binary(e) => e.id,
            Expr::Call(e) => e.id,
            Expr::Grouping(e) => e.id,
            Expr::Variable(e) => e.id,
            Expr::Assignment(e) => e.id,
            Expr::Get(e) => e.id,
            Expr::SetProperty(e) => e.id,
            Expr::This(e) => e.id,
        }
    }

    /// The identity of the node.
    #[verifier::when_used_as_spec(spec_id)]
    pub fn id(&self) -> (r: usize)
        ensures
            r == self.spec_id(),
    {
        match self {
            Expr::Literal(e) => e.id,
            Expr::Logical(e) => e.id,
            Expr::Unary(e) => e.id,
            Expr::Binary(e) => e.id,
            Expr::Call(e) => e.id,
            Expr::Grouping(e) => e.id,
            Expr::Variable(e) => e.id,
            Expr::Assignment(e) => e.id,
            Expr::Get(e) => e.id,
            Expr::SetProperty(e) => e.id,
            Expr::This(e) => e.id,
        }
    }

    /// The kind of the expression's node.
    pub open spec fn tag(&self) -> Tag {
        match self {
            Expr::Literal(e) => Tag::Literal(e.literal_type),
            Expr::Logical(_) => Tag::Logical,
            Expr::Unary(e) => Tag::Unary(e.op.0),
            Expr::Binary(e) => Tag::Binary(e.op.0),
            Expr::Call(_) => Tag::Call,
            Expr::Grouping(_) => Tag::Grouping,
            Expr::Variable(_) => Tag::Variable,
            Expr::Assignment(_) => Tag::Assignment,
            Expr::Get(_) => Tag::Get,
            Expr::SetProperty(_) => Tag::SetProperty,
            Expr::This(_) => Tag::This,
        }
    }

    /// The tokens that the expression's node keeps.
    pub open spec fn node_tokens(&self) -> Seq<TokenView> {
        match self {
            Expr::Literal(e) => seq![e.token@],
            Expr::Logical(e) => seq![e.operator@],
            Expr::Unary(e) => seq![e.op.1@],
            Expr::Binary(e) => seq![e.op.1@],
            Expr::Call(e) => seq![e.paren@],
            Expr::Grouping(e) => seq![e.left@, e.right@],
            Expr::Variable(e) => seq![e.name@],
            Expr::Assignment(e) => seq![e.name@],
            Expr::Get(e) => seq![e.name@],
            Expr::SetProperty(e) => seq![e.name@],
            Expr::This(e) => seq![e.keyword@],
        }
    }

    /// The plain values of the expression's children, in source order.
    pub open spec fn kids(&self) -> Seq<Tree>
        decreases self, 0int,
    {
        match self {
            Expr::Literal(_) => Seq::empty(),
            Expr::Logical(e) => seq![e.left.tree(), e.right.tree()],
            Expr::Unary(e) => seq![e.right.tree()],
            Expr::Binary(e) => seq![e.left.tree(), e.right.tree()],
            Expr::Call(e) => seq![e.callee.tree()] + expr_trees(e.arguments@),
            Expr::Grouping(e) => seq![e.expr.tree()],
            Expr::Variable(_) => Seq::empty(),
            Expr::Assignment(e) => seq![e.value.tree()],
            Expr::Get(e) => seq![e.object.tree()],
            Expr::SetProperty(e) => seq![e.object.tree(), e.value.tree()],
            Expr::This(_) => Seq::empty(),
        }
    }

    /// The expression as a plain value.
    #[verifier::opaque]
    pub open spec fn tree(&self) -> Tree
        decreases self, 1int,
    {
        Tree {
            tag: self.tag(),
            id: self.spec_id() as nat,
            tokens: self.node_tokens(),
            kids: self.kids(),
        }
    }

    /// What [`Expr::tree`] is.
    pub proof fn lemma_tree(&self)
        ensures
            self.tree() == (Tree {
                tag: self.tag(),
                id: self.spec_id() as nat,
                tokens: self.node_tokens(),
                kids: self.kids(),
            }),
    {
        reveal_with_fuel(Expr::tree, 1);
    }
}

/// A visitor of expressions: one method for each kind of expression.
pub trait ExprVisitor<R>: Sized {
    /// What a visit of `expr` that started in `before` and resulted in `r`
    /// leaves the visitor as.
    spec fn visited(&self, before: &Self, expr: Expr, r: R) -> bool;

    fn visit_literal_expr(&mut self, expr: &LiteralExpr) -> (r: R)
        ensures
            final(self).visited(old(self), Expr::Literal(*expr), r),
    ;

    fn visit_logical_expr(&mut self, expr: &LogicalExpr) -> (r: R)
        ensures
            final(self).visited(old(self), Expr::Logical(*expr), r),
    ;

    fn visit_unary_expr(&mut self, expr: &UnaryExpr) -> (r: R)
        ensures
            final(self).visited(old(self), Expr::Unary(*expr), r),
    ;

    fn visit_binary_expr(&mut self, expr: &BinaryExpr) -> (r: R)
        ensures
            final(self).visited(old(self), Expr::Binary(*expr), r),
    ;

    fn visit_call_expr(&mut self, expr: &CallExpr) -> (r: R)
        ensures
            final(self).visited(old(self), Expr::Call(*expr), r),
    ;

    fn visit_grouping_expr(&mut self, expr: &GroupingExpr) -> (r: R)
        ensures
            final(self).visited(old(self), Expr::Grouping(*expr), r),
    ;

    fn visit_variable_expr(&mut self, expr: &VariableExpr) -> (r: R)
        ensures
            final(self).visited(old(self), Expr::Variable(*expr), r),
    ;

    fn visit_assignment_expr(&mut self, expr: &AssignmentExpr) -> (r: R)
        ensures
            final(self).visited(old(self), Expr::Assignment(*expr), r),
    ;

    fn visit_get_expr(&mut self, expr: &GetExpr) -> (r: R)
        ensures
            final(self).visited(old(self), Expr::Get(*expr), r),
    ;

    fn visit_set_expr(&mut self, expr: &SetExpr) -> (r: R)
        ensures
            final(self).visited(old(self), Expr::SetProperty(*expr), r),
    ;

    fn visit_this_expr(&mut self, expr: &ThisExpr) -> (r: R)
        ensures
            final(self).visited(old(self), Expr::This(*expr), r),
    ;
}

/// What a visitor can visit: the expressions and each kind of them.
pub trait ExprAccept<R, V: ExprVisitor<R>> {
    /// The expression that the visitor sees.
    spec fn as_expr(&self) -> Expr;

    /// Has the visitor visit this by the method for its kind.
    fn accept(&self, visitor: &mut V) -> (r: R)
        ensures
            final(visitor).visited(old(visitor), self.as_expr(), r),
    ;
}

impl<R, V: ExprVisitor<R>> ExprAccept<R, V> for Expr {
    open spec fn as_expr(&self) -> Expr {
        *self
    }

    fn accept(&self, visitor: &mut V) -> (r: R) {
        match self {
            Expr::Literal(expr) => visitor.visit_literal_expr(expr),
            Expr::Logical(expr) => visitor.visit_logical_expr(expr),
            Expr::Unary(expr) => visitor.visit_unary_expr(expr),
            Expr::Binary(expr) => visitor.visit_binary_expr(expr),
            Expr::Call(expr) => visitor.visit_call_expr(expr),
            Expr::Grouping(expr) => visitor.visit_grouping_expr(expr),
            Expr::Variable(expr) => visitor.visit_variable_expr(expr),
            Expr::Assignment(expr) => visitor.visit_assignment_expr(expr),
            Expr::Get(expr) => visitor.visit_get_expr(expr),
            Expr::SetProperty(expr) => visitor.visit_set_expr(expr),
            Expr::This(expr) => visitor.visit_this_expr(expr),
        }
    }
}

impl<R, V: ExprVisitor<R>> ExprAccept<R, V> for LiteralExpr {
    open spec fn as_expr(&self) -> Expr {
        Expr::Literal(*self)
    }

    fn accept(&self, visitor: &mut V) -> (r: R) {
        visitor.visit_literal_expr(self)
    }
}

impl<R, V: ExprVisitor<R>> ExprAccept<R, V> for LogicalExpr {
    open spec fn as_expr(&self) -> Expr {
        Expr::Logical(*self)
    }

    fn accept(&self, visitor: &mut V) -> (r: R) {
        visitor.visit_logical_expr(self)
    }
}

impl<R, V: ExprVisitor<R>> ExprAccept<R, V> for UnaryExpr {
    open spec fn as_expr(&self) -> Expr {
        Expr::Unary(*self)
    }

    fn accept(&self, visitor: &mut V) -> (r: R) {
        visitor.visit_unary_expr(self)
    }
}

impl<R, V: ExprVisitor<R>> ExprAccept<R, V> for BinaryExpr {
    open spec fn as_expr(&self) -> Expr {
        Expr::Binary(*self)
    }

    fn accept(&self, visitor: &mut V) -> (r: R) {
        visitor.visit_binary_expr(self)
    }
}

impl<R, V: ExprVisitor<R>> ExprAccept<R, V> for CallExpr {
    open spec fn as_expr(&self) -> Expr {
        Expr::Call(*self)
    }

    fn accept(&self, visitor: &mut V) -> (r: R) {
        visitor.visit_call_expr(self)
    }
}

impl<R, V: ExprVisitor<R>> ExprAccept<R, V> for GroupingExpr {
    open spec fn as_expr(&self) -> Expr {
        Expr::Grouping(*self)
    }

    fn accept(&self, visitor: &mut V) -> (r: R) {
        visitor.visit_grouping_expr(self)
    }
}

impl<R, V: ExprVisitor<R>> ExprAccept<R, V> for VariableExpr {
    open spec fn as_expr(&self) -> Expr {
        Expr::Variable(*self)
    }

    fn accept(&self, visitor: &mut V) -> (r: R) {
        visitor.visit_variable_expr(self)
    }
}

impl<R, V: ExprVisitor<R>> ExprAccept<R, V> for AssignmentExpr {
    open spec fn as_expr(&self) -> Expr {
        Expr::Assignment(*self)
    }

    fn accept(&self, visitor: &mut V) -> (r: R) {
        visitor.visit_assignment_expr(self)
    }
}

impl<R, V: ExprVisitor<R>> ExprAccept<R, V> for GetExpr {
    open spec fn as_expr(&self) -> Expr {
        Expr::Get(*self)
    }

    fn accept(&self, visitor: &mut V) -> (r: R) {
        visitor.visit_get_expr(self)
    }
}

impl<R, V: ExprVisitor<R>> ExprAccept<R, V> for SetExpr {
    open spec fn as_expr(&self) -> Expr {
        Expr::SetProperty(*self)
    }

    fn accept(&self, visitor: &mut V) -> (r: R) {
        visitor.visit_set_expr(self)
    }
}

impl<R, V: ExprVisitor<R>> ExprAccept<R, V> for ThisExpr {
    open spec fn as_expr(&self) -> Expr {
        Expr::This(*self)
    }

    fn accept(&self, visitor: &mut V) -> (r: R) {
        visitor.visit_this_expr(self)
    }
}

/// The plain values of a list of expressions.
#[verifier::opaque]
pub open spec fn expr_trees(exprs: Seq<Expr>) -> Seq<Tree>
    decreases exprs, 2int,
{
    if exprs.len() == 0 {
        Seq::empty()
    } else {
        expr_trees(exprs.drop_last()).push(exprs.last().tree())
    }
}

/// The plain values of no expressions.
pub proof fn lemma_expr_trees_empty()
    ensures
        expr_trees(Seq::empty()) == Seq::<Tree>::empty(),
{
    reveal_with_fuel(expr_trees, 1);
}

/// The plain values of a list with one more expression.
pub proof fn lemma_expr_trees_push(exprs: Seq<Expr>, last: Expr)
    ensures
        expr_trees(exprs.push(last)) == expr_trees(exprs).push(last.tree()),
{
    reveal_with_fuel(expr_trees, 1);
    reveal_with_fuel(Expr::tree, 1);
    assert(exprs.push(last).drop_last() =~= exprs);
}

} // verus!
