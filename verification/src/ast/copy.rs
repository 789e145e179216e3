//! Copies of syntax trees.  A copy keeps the identities of the expressions:
//! copying hands out none.
use vstd::prelude::*;
use crate::ast::expr::{
    expr_trees, lemma_expr_trees_empty, lemma_expr_trees_push, AssignmentExpr, BinaryExpr,
    CallExpr, Expr, GetExpr, GroupingExpr, LiteralExpr, LogicalExpr, SetExpr, ThisExpr,
    UnaryExpr, VariableExpr,
};
use crate::ast::stmt::{
    function_trees, lemma_function_trees_empty, lemma_function_trees_push,
    lemma_stmt_trees_empty, lemma_stmt_trees_push, stmt_trees, BlockStmt, ClassStmt,
    ExpressionStmt, FunctionStmt, IfStmt, PrintStmt, ReturnStmt, Stmt, VariableStmt, WhileStmt,
};
use crate::token::Token;

verus! {

/// A copy of a list of tokens.
pub fn clone_tokens(tokens: &Vec<Token>) -> (r: Vec<Token>)
    ensures
        r@ == tokens@,
{
    let mut r: Vec<Token> = Vec::new();
    let mut i: usize = 0;
    while i < tokens.len()
        invariant
            i <= tokens@.len(),
            r@ == tokens@.take(i as int),
        decreases tokens@.len() - i,
    {
        r.push(tokens[i].clone());
        assert(r@ =~= tokens@.take(i + 1));
        i += 1;
    }
    assert(tokens@.take(i as int) =~= tokens@);
    r
}

/// A copy of an expression: the same tree, identities included.
pub fn clone_expr(expr: &Expr) -> (r: Expr)
    ensures
        r.tree() == expr.tree(),
        r.spec_id() == expr.spec_id(),
    decreases expr,
{
    proof {
        expr.lemma_tree();
    }
    match expr {
        Expr::Literal(x) => {
            let r = Expr::Literal(
                LiteralExpr { id: x.id, literal_type: x.literal_type, token: x.token.clone() },
            );
            proof {
                r.lemma_tree();
            }
            r
        },
        Expr::Logical(x) => {
            let r = Expr::Logical(
                LogicalExpr {
                    id: x.id,
                    left: Box::new(clone_expr(&*x.left)),
                    operator: x.operator.clone(),
                    right: Box::new(clone_expr(&*x.right)),
                },
            );
            proof {
                r.lemma_tree();
            }
            r
        },
        Expr::Unary(x) => {
            let r = Expr::Unary(
                UnaryExpr {
                    id: x.id,
                    op: (x.op.0, x.op.1.clone()),
                    right: Box::new(clone_expr(&*x.right)),
                },
            );
            proof {
                r.lemma_tree();
            }
            r
        },
        Expr::Binary(x) => {
            let r = Expr::Binary(
                BinaryExpr {
                    id: x.id,
                    left: Box::new(clone_expr(&*x.left)),
                    op: (x.op.0, x.op.1.clone()),
                    right: Box::new(clone_expr(&*x.right)),
                },
            );
            proof {
                r.lemma_tree();
            }
            r
        },
        Expr::Call(x) => {
            let r = Expr::Call(
                CallExpr {
                    id: x.id,
                    callee: Box::new(clone_expr(&*x.callee)),
                    paren: x.paren.clone(),
                    arguments: clone_exprs(&x.arguments),
                },
            );
            proof {
                r.lemma_tree();
            }
            r
        },
        Expr::Grouping(x) => {
            let r = Expr::Grouping(
                GroupingExpr {
                    id: x.id,
                    left: x.left.clone(),
                    expr: Box::new(clone_expr(&*x.expr)),
                    right: x.right.clone(),
                },
            );
            proof {
                r.lemma_tree();
            }
            r
        },
        Expr::Variable(x) => {
            let r = Expr::Variable(VariableExpr { id: x.id, name: x.name.clone() });
            proof {
                r.lemma_tree();
            }
            r
        },
        Expr::Assignment(x) => {
            let r = Expr::Assignment(
                AssignmentExpr {
                    id: x.id,
                    name: x.name.clone(),
                    value: Box::new(clone_expr(&*x.value)),
                },
            );
            proof {
                r.lemma_tree();
            }
            r
        },
        Expr::Get(x) => {
            let r = Expr::Get(
                GetExpr { id: x.id, object: Box::new(clone_expr(&*x.object)), name: x.name.clone() },
            );
            proof {
                r.lemma_tree();
            }
            r
        },
        Expr::SetProperty(x) => {
            let r = Expr::SetProperty(
                SetExpr {
                    id: x.id,
                    object: Box::new(clone_expr(&*x.object)),
                    name: x.name.clone(),
                    value: Box::new(clone_expr(&*x.value)),
                },
            );
            proof {
                r.lemma_tree();
            }
            r
        },
        Expr::This(x) => {
            let r = Expr::This(ThisExpr { id: x.id, keyword: x.keyword.clone() });
            proof {
                r.lemma_tree();
            }
            r
        },
    }
}

/// A copy of a list of expressions.
pub fn clone_exprs(exprs: &Vec<Expr>) -> (r: Vec<Expr>)
    ensures
        expr_trees(r@) == expr_trees(exprs@),
        r@.len() == exprs@.len(),
    decreases exprs,
{
    let mut r: Vec<Expr> = Vec::new();
    let mut i: usize = 0;
    proof {
        lemma_expr_trees_empty();
        assert(exprs@.take(0) =~= Seq::empty());
    }
    while i < exprs.len()
        invariant
            i <= exprs@.len(),
            r@.len() == i,
            expr_trees(r@) == expr_trees(exprs@.take(i as int)),
        decreases exprs@.len() - i,
    {
        let ghost before = r@;
        let copy = clone_expr(&exprs[i]);
        r.push(copy);
        proof {
            lemma_expr_trees_push(before, copy);
            lemma_expr_trees_push(exprs@.take(i as int), exprs@[i as int]);
            assert(exprs@.take(i as int).push(exprs@[i as int]) =~= exprs@.take(i + 1));
        }
        i += 1;
    }
    assert(exprs@.take(i as int) =~= exprs@);
    r
}

impl Clone for Expr {
    /// A copy with the identities of this expression: copying hands out no
    /// identity.
    fn clone(&self) -> (r: Self)
        ensures
            r.tree() == self.tree(),
            r.spec_id() == self.spec_id(),
    {
        clone_expr(self)
    }
}

/// A copy of a function declaration: the same tree, identities included.
pub fn clone_function(function: &FunctionStmt) -> (r: FunctionStmt)
    ensures
        r.tree() == function.tree(),
    decreases function,
{
    proof {
        function.lemma_tree();
    }
    let r = FunctionStmt {
        name: function.name.clone(),
        params: clone_tokens(&function.params),
        body: clone_stmts(&function.body),
    };
    proof {
        r.lemma_tree();
    }
    r
}

/// A copy of a statement: the same tree, identities included.
pub fn clone_stmt(stmt: &Stmt) -> (r: Stmt)
    ensures
        r.tree() == stmt.tree(),
    decreases stmt,
{
    proof {
        stmt.lemma_tree();
    }
    let r = match stmt {
        Stmt::Block(x) => Stmt::Block(BlockStmt { stmts: clone_stmts(&x.stmts) }),
        Stmt::Expression(x) => Stmt::Expression(ExpressionStmt { expr: clone_expr(&x.expr) }),
        Stmt::Print(x) => Stmt::Print(PrintStmt { expr: clone_expr(&x.expr) }),
        Stmt::Variable(x) => Stmt::Variable(
            VariableStmt {
                name: x.name.clone(),
                initializer: match &x.initializer {
                    Some(e) => Some(clone_expr(e)),
                    None => None,
                },
            },
        ),
        Stmt::If(x) => Stmt::If(
            IfStmt {
                condition: clone_expr(&x.condition),
                then_branch: Box::new(clone_stmt(&*x.then_branch)),
                else_branch: match &x.else_branch {
                    Some(e) => Some(Box::new(clone_stmt(&**e))),
                    None => None,
                },
            },
        ),
        Stmt::While(x) => Stmt::While(
            WhileStmt { condition: clone_expr(&x.condition), body: Box::new(clone_stmt(&*x.body)) },
        ),
        Stmt::Function(x) => {
            proof {
                x.lemma_tree();
            }
            let copy = clone_function(x);
            proof {
                copy.lemma_tree();
            }
            Stmt::Function(copy)
        },
        Stmt::Return(x) => Stmt::Return(
            ReturnStmt {
                keyword: x.keyword.clone(),
                value: match &x.value {
                    Some(e) => Some(clone_expr(e)),
                    None => None,
                },
            },
        ),
        Stmt::Class(x) => Stmt::Class(
            ClassStmt { name: x.name.clone(), methods: clone_functions(&x.methods) },
        ),
    };
    proof {
        r.lemma_tree();
    }
    r
}

/// A copy of a list of statements.
pub fn clone_stmts(stmts: &Vec<Stmt>) -> (r: Vec<Stmt>)
    ensures
        stmt_trees(r@) == stmt_trees(stmts@),
        r@.len() == stmts@.len(),
    decreases stmts,
{
    let mut r: Vec<Stmt> = Vec::new();
    let mut i: usize = 0;
    proof {
        lemma_stmt_trees_empty();
        assert(stmts@.take(0) =~= Seq::empty());
    }
    while i < stmts.len()
        invariant
            i <= stmts@.len(),
            r@.len() == i,
            stmt_trees(r@) == stmt_trees(stmts@.take(i as int)),
        decreases stmts@.len() - i,
    {
        let ghost before = r@;
        let copy = clone_stmt(&stmts[i]);
        r.push(copy);
        proof {
            lemma_stmt_trees_push(before, copy);
            lemma_stmt_trees_push(stmts@.take(i as int), stmts@[i as int]);
            assert(stmts@.take(i as int).push(stmts@[i as int]) =~= stmts@.take(i + 1));
        }
        i += 1;
    }
    assert(stmts@.take(i as int) =~= stmts@);
    r
}

/// A copy of a list of function declarations.
pub fn clone_functions(functions: &Vec<FunctionStmt>) -> (r: Vec<FunctionStmt>)
    ensures
        function_trees(r@) == function_trees(functions@),
        r@.len() == functions@.len(),
    decreases functions,
{
    let mut r: Vec<FunctionStmt> = Vec::new();
    let mut i: usize = 0;
    proof {
        lemma_function_trees_empty();
        assert(functions@.take(0) =~= Seq::empty());
    }
    while i < functions.len()
        invariant
            i <= functions@.len(),
            r@.len() == i,
            function_trees(r@) == function_trees(functions@.take(i as int)),
        decreases functions@.len() - i,
    {
        let ghost before = r@;
        let copy = clone_function(&functions[i]);
        r.push(copy);
        proof {
            lemma_function_trees_push(before, copy);
            lemma_function_trees_push(functions@.take(i as int), functions@[i as int]);
            assert(functions@.take(i as int).push(functions@[i as int]) =~= functions@.take(
                i + 1,
            ));
        }
        i += 1;
    }
    assert(functions@.take(i as int) =~= functions@);
    r
}

impl Clone for Stmt {
    /// A copy with the identities of the expressions of this statement.
    fn clone(&self) -> (r: Self)
        ensures
            r.tree() == self.tree(),
    {
        clone_stmt(self)
    }
}

impl Clone for FunctionStmt {
    /// A copy with the identities of the expressions of this declaration.
    fn clone(&self) -> (r: Self)
        ensures
            r.tree() == self.tree(),
    {
        clone_function(self)
    }
}

} // verus!
