//! The parser: tokens to statements, by recursive descent with error
//! recovery.
use vstd::prelude::*;
use crate::ast::expr::{
    AssignmentExpr, BinaryExpr, BinaryExprOp, CallExpr, Expr, GetExpr, GroupingExpr, LiteralExpr,
    LiteralExprType, LogicalExpr, SetExpr, ThisExpr, UnaryExpr, UnaryExprOp, VariableExpr,
    expr_trees, lemma_expr_trees_empty, lemma_expr_trees_push,
};
use crate::ast::stmt::{
    function_trees, lemma_function_trees_empty, lemma_function_trees_push,
    lemma_stmt_trees_empty, lemma_stmt_trees_push, stmt_trees, BlockStmt, ClassStmt,
    ExpressionStmt, FunctionStmt, IfStmt, PrintStmt, ReturnStmt, Stmt, VariableStmt, WhileStmt,
};
use crate::ast::tree::{Tag, Tree};
use crate::grammar::{
    after_token, arguments, assign_node, assignment, at_end, atom, atom_tag, begins_statement,
    binary, binary_op, binary_rest, block, block_end, call_node, check_at, class_declaration,
    class_node, clause, closed, declaration, desugared, diagnostic, ended, expecting,
    expression, expression_statement, finish_call, for_initializer, for_node, for_statement,
    function, function_head, function_node, get_node, grouping, if_node, if_statement,
    infix_node, items, lemma_declaration, lemma_expression, lemma_finish_call,
    lemma_logical_operand, lemma_operand, lemma_resume_bounded, lemma_statement, logical,
    logical_rest, methods, more_arguments, more_parameters, optional, parameters,
    plain_declaration, postfix, postfix_rest, postfix_step, primary, print_statement, program,
    remaining, resume_at, resume_loop, return_node, return_statement, statement, unary,
    unary_node, unary_op, var_declaration, var_node, well_ended, while_node, while_statement,
    Cursor, MAX_ARITY, Parsed, ParsedList,
};
use crate::lox::token_error;
use crate::token::{token_views, Token};
use crate::token_type::TokenType;

verus! {

/// Why a production gave up; the diagnostic itself has been reported.
pub struct ParserError {
    pub message: String,
}

/// The parser's state: the tokens, the position of the next token, the next
/// expression identity, and the diagnostics so far.
pub struct Parser {
    tokens: Vec<Token>,
    current: usize,
    next_id: usize,
    errors: Vec<String>,
}

/// The plain value of a statement that may be missing: no tree or one.
pub open spec fn statement_or_none(statement: Option<Stmt>) -> Seq<Tree> {
    match statement {
        Some(s) => seq![s.tree()],
        None => Seq::empty(),
    }
}

/// The plain value of an expression that may be missing: no tree or one.
pub open spec fn expression_or_none(expression: Option<Expr>) -> Seq<Tree> {
    match expression {
        Some(e) => seq![e.tree()],
        None => Seq::empty(),
    }
}

impl Parser {
    /// The tokens being parsed.
    pub closed spec fn input(&self) -> Seq<Token> {
        self.tokens@
    }

    /// The position of the next token.
    pub closed spec fn position(&self) -> int {
        self.current as int
    }

    /// The identity that the next expression node gets.
    pub closed spec fn upcoming_id(&self) -> int {
        self.next_id as int
    }

    /// The diagnostics reported so far.
    pub closed spec fn reported(&self) -> Seq<Seq<char>> {
        self.errors.deep_view()
    }

    /// Where the next production starts.
    pub closed spec fn cursor(&self) -> Cursor {
        Cursor {
            pos: self.current as int,
            id: self.next_id as int,
            errors: self.errors.deep_view(),
        }
    }

    /// The tokens end in `EOF`, the position is inside them, and there are
    /// identities left for every token still to be read.
    pub closed spec fn wf(&self) -> bool {
        &&& well_ended(self.tokens@)
        &&& self.current < self.tokens@.len() <= usize::MAX
        &&& self.next_id + (self.tokens@.len() - self.current) <= usize::MAX
    }

    /// The state after a production that started in `before`, read `used`
    /// tokens and handed out `minted` identities, and after which `errors`
    /// are the diagnostics.
    pub closed spec fn follows(
        &self,
        before: &Parser,
        used: nat,
        minted: nat,
        errors: Seq<Seq<char>>,
    ) -> bool {
        &&& self.tokens == before.tokens
        &&& self.current == before.current + used
        &&& self.next_id == before.next_id + minted
        &&& self.errors.deep_view() == errors
    }

    /// The state after reading `used` tokens from `before`.
    spec fn moved(&self, before: &Parser, used: nat) -> bool {
        self.follows(before, used, 0, before.errors.deep_view())
    }

    /// A parser at the start of `tokens` whose first expression gets the
    /// identity 0.
    pub fn new(tokens: Vec<Token>) -> (r: Self)
        requires
            well_ended(tokens@),
        ensures
            r.wf(),
            r.input() == tokens@,
            r.position() == 0,
            r.upcoming_id() == 0,
            r.reported() == Seq::<Seq<char>>::empty(),
    {
        assert(tokens@.len() == tokens.len());
        let r = Parser { tokens, current: 0, next_id: 0, errors: Vec::new() };
        assert(r.reported() =~= Seq::<Seq<char>>::empty());
        r
    }

    /// A parser at the start of `tokens` whose first expression gets the
    /// identity `first_id`, or `None` if the identities would run out.
    pub fn starting_at(tokens: Vec<Token>, first_id: usize) -> (r: Option<Self>)
        requires
            well_ended(tokens@),
        ensures
            r is Some <==> first_id + tokens@.len() <= usize::MAX,
            r matches Some(p) ==> {
                &&& p.wf()
                &&& p.input() == tokens@
                &&& p.position() == 0
                &&& p.upcoming_id() == first_id
                &&& p.reported() == Seq::<Seq<char>>::empty()
            },
    {
        if tokens.len() > usize::MAX - first_id {
            return None;
        }
        let r = Parser { tokens, current: 0, next_id: first_id, errors: Vec::new() };
        assert(r.reported() =~= Seq::<Seq<char>>::empty());
        Some(r)
    }

    /// The identity that the next expression node gets.
    pub fn next_id(&self) -> (r: usize)
        ensures
            r == self.upcoming_id(),
    {
        self.next_id
    }

    /// Hands the diagnostics over and leaves none behind.
    pub fn take_errors(&mut self) -> (r: Vec<String>)
        ensures
            r.deep_view() == old(self).reported(),
            final(self).reported() == Seq::<Seq<char>>::empty(),
            final(self).input() == old(self).input(),
            final(self).position() == old(self).position(),
            final(self).upcoming_id() == old(self).upcoming_id(),
            old(self).wf() ==> final(self).wf(),
    {
        let mut taken: Vec<String> = Vec::new();
        std::mem::swap(&mut taken, &mut self.errors);
        assert(final(self).reported() =~= Seq::<Seq<char>>::empty());
        taken
    }

    fn peek(&self) -> (r: Option<&Token>)
        ensures
            r == if self.current < self.tokens@.len() {
                Some(&self.tokens@[self.current as int])
            } else {
                None
            },
    {
        if self.current < self.tokens.len() {
            Some(&self.tokens[self.current])
        } else {
            None
        }
    }

    fn previous(&self) -> (r: Option<&Token>)
        ensures
            r == if 0 < self.current <= self.tokens@.len() {
                Some(&self.tokens@[self.current - 1])
            } else {
                None
            },
    {
        if self.current == 0 || self.current > self.tokens.len() {
            return None;
        }
        Some(&self.tokens[self.current - 1])
    }

    fn is_at_end(&self) -> (r: bool)
        ensures
            r == at_end(self.tokens@, self.current as int),
    {
        match self.peek() {
            Some(token) => token.token_type.same_kind(&TokenType::EOF),
            None => true,
        }
    }

    /// Whether the next token is of the given kind.
    fn check(&self, token_type: &TokenType) -> (r: bool)
        ensures
            r == check_at(self.tokens@, self.current as int, token_type.kind()),
    {
        if self.is_at_end() {
            return false;
        }
        match self.peek() {
            Some(token) => token.token_type.same_kind(token_type),
            None => false,
        }
    }

    /// Reads the next token unless it is `EOF`, and returns the token before
    /// the new position.
    fn advance(&mut self) -> (r: Option<&Token>)
        requires
            old(self).wf(),
        ensures
            final(self).wf(),
            final(self).moved(
                old(self),
                if at_end(old(self).tokens@, old(self).current as int) {
                    0nat
                } else {
                    1nat
                },
            ),
            r == if final(self).current > 0 {
                Some(&old(self).tokens@[final(self).current - 1])
            } else {
                None
            },
    {
        if !self.is_at_end() {
            self.current += 1;
        }
        self.previous()
    }

    /// Reads the next token if it is of the given kind.
    fn match_one(&mut self, token_type: &TokenType) -> (r: bool)
        requires
            old(self).wf(),
        ensures
            final(self).wf(),
            r == check_at(old(self).tokens@, old(self).current as int, token_type.kind()),
            final(self).moved(
                old(self),
                if r {
                    1nat
                } else {
                    0nat
                },
            ),
    {
        if self.check(token_type) {
            self.advance();
            return true;
        }
        false
    }

    /// Reports a diagnostic at `token`.
    fn error(&mut self, message: String, token: &Token) -> (r: ParserError)
        ensures
            final(self).follows(
                old(self),
                0,
                0,
                old(self).errors.deep_view().push(diagnostic(*token, message@)),
            ),
            old(self).wf() ==> final(self).wf(),
    {
        proof {
            reveal(diagnostic);
        }
        let line = token_error(token, message.as_str());
        self.errors.push(line);
        assert(self.errors.deep_view() =~= old(self).errors.deep_view().push(
            diagnostic(*token, message@),
        ));
        ParserError { message }
    }

    /// Reads the next token if it is of the given kind, and reports
    /// `err_message` at it otherwise.
    fn consume(&mut self, token_type: &TokenType, err_message: &str) -> (r: Result<
        Token,
        ParserError,
    >)
        requires
            old(self).wf(),
        ensures
            final(self).wf(),
            ({
                let found = check_at(old(self).tokens@, old(self).current as int, token_type.kind());
                let token = old(self).tokens@[old(self).current as int];
                if found {
                    &&& r == Ok::<Token, ParserError>(token)
                    &&& final(self).moved(old(self), 1)
                } else {
                    &&& r is Err
                    &&& final(self).follows(
                        old(self),
                        0,
                        0,
                        old(self).cursor().complain(token, err_message@),
                    )
                }
            }),
    {
        if self.check(token_type) {
            let token = self.tokens[self.current].clone();
            self.advance();
            return Ok(token);
        }
        let token = self.tokens[self.current].clone();
        Err(self.error(String::from_str(err_message), &token))
    }

    /// Whether a token begins a statement.
    fn starts_statement(token_type: &TokenType) -> (r: bool)
        ensures
            r == begins_statement(token_type.kind()),
    {
        proof {
            reveal(TokenType::kind);
        }
        match token_type {
            TokenType::Class
            | TokenType::For
            | TokenType::Fun
            | TokenType::If
            | TokenType::Print
            | TokenType::Return
            | TokenType::Var
            | TokenType::While => true,
            _ => false,
        }
    }

    /// Skips to the start of the next statement: past a `;`, or up to a
    /// keyword that begins a statement.
    fn synchronize(&mut self)
        requires
            old(self).wf(),
        ensures
            final(self).wf(),
            final(self).moved(
                old(self),
                (resume_at(old(self).tokens@, old(self).current as int) - old(self).current) as nat,
            ),
            final(self).current == resume_at(old(self).tokens@, old(self).current as int),
    {
        self.advance();
        while !self.is_at_end()
            invariant
                self.wf(),
                self.tokens == old(self).tokens,
                self.next_id == old(self).next_id,
                self.errors.deep_view() == old(self).errors.deep_view(),
                self.current >= old(self).current,
                resume_loop(self.tokens@, self.current as int) == resume_at(
                    old(self).tokens@,
                    old(self).current as int,
                ),
            ensures
                self.current == resume_at(old(self).tokens@, old(self).current as int),
            decreases self.tokens@.len() - self.current,
        {
            if let Some(prev) = self.previous() {
                if prev.token_type.same_kind(&TokenType::Semicolon) {
                    break;
                }
            }
            if let Some(peek) = self.peek() {
                if Self::starts_statement(&peek.token_type) {
                    break;
                }
            }
            self.advance();
        }
    }
    /// The state after a production that yields `p`, and the statement it
    /// results in; the production may hand out `slack` identities more than
    /// it reads tokens.
    spec fn gives(
        &self,
        before: &Parser,
        r: Result<Stmt, ParserError>,
        p: Parsed,
        slack: nat,
    ) -> bool {
        &&& self.follows(before, p.used, p.minted, p.errors)
        &&& p.minted <= p.used + slack
        &&& p.ok ==> p.used > 0
        &&& match r {
            Ok(s) => p.ok && s.tree() == p.tree,
            Err(_) => !p.ok,
        }
    }

    /// The state after a production that yields the list `p`, and the
    /// statements it results in.
    spec fn gives_list(
        &self,
        before: &Parser,
        r: Result<Vec<Stmt>, ParserError>,
        p: ParsedList,
    ) -> bool {
        &&& self.follows(before, p.used, p.minted, p.errors)
        &&& p.minted <= p.used
        &&& match r {
            Ok(list) => p.ok && stmt_trees(list@) == p.trees,
            Err(_) => !p.ok,
        }
    }

    /// There are identities left for one more than the tokens still to be
    /// read.
    spec fn spare(&self) -> bool {
        self.next_id + (self.tokens@.len() - self.current) < usize::MAX
    }

    /// Parses the whole token sequence: the statements of the declarations
    /// that parsed, in order.  The diagnostics of the others are kept for
    /// [`Parser::take_errors`].
    pub fn parse(&mut self) -> (r: Vec<Stmt>)
        requires
            old(self).wf(),
        ensures
            final(self).wf(),
            ({
                let p = program(old(self).input(), old(self).cursor());
                &&& stmt_trees(r@) == p.trees
                &&& final(self).follows(old(self), p.used, p.minted, p.errors)
                &&& at_end(final(self).input(), final(self).position())
            }),
    {
        self.items(false)
    }

    /// `declaration*`, up to the end of the tokens and, in a block, up to a
    /// `}`.
    fn items(&mut self, in_block: bool) -> (r: Vec<Stmt>)
        requires
            old(self).wf(),
        ensures
            final(self).wf(),
            ({
                let p = items(old(self).tokens@, old(self).cursor(), in_block);
                &&& stmt_trees(r@) == p.trees
                &&& p.ok
                &&& final(self).follows(old(self), p.used, p.minted, p.errors)
                &&& p.minted <= p.used
                &&& at_end(final(self).tokens@, final(self).current as int) || (in_block
                    && check_at(
                    final(self).tokens@,
                    final(self).current as int,
                    TokenType::RightBrace.kind(),
                ))
            }),
        decreases remaining(old(self).tokens@, old(self).current as int), 190int,
    {
        let ghost total = items(self.tokens@, self.cursor(), in_block);
        let mut statements: Vec<Stmt> = Vec::new();
        proof {
            lemma_stmt_trees_empty();
        }
        loop
            invariant
                self.wf(),
                total == items(old(self).tokens@, old(self).cursor(), in_block),
                self.tokens == old(self).tokens,
                self.current >= old(self).current,
                self.next_id - self.current <= old(self).next_id - old(self).current,
                ({
                    let rest = items(self.tokens@, self.cursor(), in_block);
                    &&& total.used == (self.current - old(self).current) + rest.used
                    &&& total.minted == (self.next_id - old(self).next_id) + rest.minted
                    &&& total.errors == rest.errors
                    &&& total.ok == rest.ok
                    &&& total.trees =~= stmt_trees(statements@) + rest.trees
                }),
            decreases remaining(self.tokens@, self.current as int),
        {
            if self.is_at_end() || (in_block && self.check(&TokenType::RightBrace)) {
                return statements;
            }
            let ghost before = statements@;
            let ghost head = self.cursor();
            let ghost first = declaration(self.tokens@, head);
            match self.declaration() {
                Some(statement) => {
                    statements.push(statement);
                    proof {
                        lemma_stmt_trees_push(before, statement);
                        let rest = items(self.tokens@, self.cursor(), in_block);
                        assert(stmt_trees(before) + (seq![statement.tree()] + rest.trees)
                            =~= stmt_trees(before).push(statement.tree()) + rest.trees);
                    }
                },
                None => {
                    proof {
                        let rest = items(self.tokens@, self.cursor(), in_block);
                        assert(Seq::<Tree>::empty() + rest.trees =~= rest.trees);
                    }
                },
            }
            assert(self.cursor() == head.after_list(first));
        }
    }

    /// A declaration with recovery: after an error it skips to the start of
    /// the next statement and yields none.
    fn declaration(&mut self) -> (r: Option<Stmt>)
        requires
            old(self).wf(),
            !at_end(old(self).tokens@, old(self).current as int),
        ensures
            final(self).wf(),
            ({
                let p = declaration(old(self).tokens@, old(self).cursor());
                &&& final(self).follows(old(self), p.used, p.minted, p.errors)
                &&& p.minted <= p.used
                &&& p.used > 0
                &&& p.ok
                &&& match r {
                    Some(s) => p.trees == seq![s.tree()],
                    None => p.trees == Seq::<Tree>::empty(),
                }
            }),
        decreases remaining(old(self).tokens@, old(self).current as int), 95int,
    {
        proof {
            lemma_declaration(self.tokens@, self.cursor());
        }
        match self.try_declaration() {
            Ok(statement) => Some(statement),
            Err(_) => {
                proof {
                    lemma_resume_bounded(self.tokens@, self.current as int);
                }
                self.synchronize();
                None
            },
        }
    }

    /// A declaration without recovery.
    fn try_declaration(&mut self) -> (r: Result<Stmt, ParserError>)
        requires
            old(self).wf(),
        ensures
            final(self).wf(),
            final(self).gives(
                old(self),
                r,
                plain_declaration(old(self).tokens@, old(self).cursor()),
                0,
            ),
        decreases remaining(old(self).tokens@, old(self).current as int), 94int,
    {
        if self.match_one(&TokenType::Class) {
            return self.class_declaration();
        }
        if self.match_one(&TokenType::Fun) {
            return match self.function("function") {
                Ok(declaration) => {
                    proof {
                        declaration.lemma_tree();
                    }
                    let node = Stmt::Function(declaration);
                    proof {
                        node.lemma_tree();
                    }
                    Ok(node)
                },
                Err(e) => Err(e),
            };
        }
        if self.match_one(&TokenType::Var) {
            return self.var_declaration();
        }
        self.statement()
    }

    /// A class declaration whose `class` has been read.
    fn class_declaration(&mut self) -> (r: Result<Stmt, ParserError>)
        requires
            old(self).wf(),
        ensures
            final(self).wf(),
            final(self).gives_after(
                old(self),
                r,
                class_declaration(old(self).tokens@, old(self).cursor()),
            ),
        decreases remaining(old(self).tokens@, old(self).current as int), 230int,
    {
        proof {
            reveal(class_node);
            reveal(block_end);
        }
        let ghost start = self.cursor();
        let ghost whole = class_declaration(self.tokens@, start);
        let name = self.consume(&TokenType::Identifier, "Expect class name.")?;
        self.consume(&TokenType::LeftBrace, "Expect '{' before class body.")?;
        let ghost inner = self.cursor();
        let ghost total = methods(self.tokens@, inner);
        let mut list: Vec<FunctionStmt> = Vec::new();
        proof {
            lemma_function_trees_empty();
        }
        loop
            invariant
                self.wf(),
                start == old(self).cursor(),
                inner == start.skip(2),
                total == methods(old(self).tokens@, inner),
                name == old(self).tokens@[start.pos],
                whole == class_declaration(old(self).tokens@, start),
                whole == class_node(
                    old(self).tokens@,
                    start,
                    block_end(old(self).tokens@, inner, total, "Expect '}' after class body."@),
                ),
                self.tokens == old(self).tokens,
                self.current >= inner.pos,
                self.next_id - self.current <= inner.id - inner.pos,
                ({
                    let rest = methods(self.tokens@, self.cursor());
                    &&& total.used == (self.current - inner.pos) + rest.used
                    &&& total.minted == (self.next_id - inner.id) + rest.minted
                    &&& total.errors == rest.errors
                    &&& total.ok == rest.ok
                    &&& total.trees =~= function_trees(list@) + rest.trees
                }),
            ensures
                self.follows(old(self), 2 + total.used, total.minted, total.errors),
                total.ok,
                total.trees =~= function_trees(list@),
                total.minted <= total.used,
            decreases remaining(self.tokens@, self.current as int),
        {
            proof {
                reveal(class_node);
                reveal(block_end);
            }
            if self.check(&TokenType::RightBrace) || self.is_at_end() {
                break;
            }
            let ghost before = list@;
            let method = self.function("method")?;
            list.push(method);
            proof {
                lemma_function_trees_push(before, method);
            }
        }
        self.consume(&TokenType::RightBrace, "Expect '}' after class body.")?;
        let node = Stmt::Class(ClassStmt { name, methods: list });
        proof {
            node.lemma_tree();
        }
        Ok(node)
    }

    /// A diagnostic message that names the kind of declaration.
    fn message(head: &str, kind: &str, tail: &str) -> (r: String)
        ensures
            r@ == expecting(head@, kind@, tail@),
    {
        let mut r = String::from_str(head);
        r.append(kind);
        r.append(tail);
        r
    }

    /// A function declaration from its name on; `kind` says in the
    /// diagnostics what is declared.
    fn function(&mut self, kind: &str) -> (r: Result<FunctionStmt, ParserError>)
        requires
            old(self).wf(),
        ensures
            final(self).wf(),
            ({
                let p = function(old(self).tokens@, old(self).cursor(), kind@);
                &&& final(self).follows(old(self), p.used, p.minted, p.errors)
                &&& p.minted <= p.used
                &&& p.ok ==> p.used > 0
                &&& match r {
                    Ok(f) => p.ok && f.tree() == p.tree,
                    Err(_) => !p.ok,
                }
            }),
        decreases remaining(old(self).tokens@, old(self).current as int), 210int,
    {
        proof {
            reveal(function_head);
            reveal(function_node);
        }
        let expect_name = Self::message("Expect ", kind, " name.");
        let name = self.consume(&TokenType::Identifier, expect_name.as_str())?;
        let expect_paren = Self::message("Expect '(' after ", kind, " name.");
        self.consume(&TokenType::LeftParen, expect_paren.as_str())?;
        let params = self.parameters()?;
        self.consume(&TokenType::RightParen, "Expect ')' after parameters.")?;
        let expect_brace = Self::message("Expect '{' before ", kind, " body.");
        self.consume(&TokenType::LeftBrace, expect_brace.as_str())?;
        let body = self.block()?;
        let node = FunctionStmt { name, params, body };
        proof {
            node.lemma_tree();
        }
        Ok(node)
    }

    /// The parameters of a function whose `(` has been read, up to the `)`.
    fn parameters(&mut self) -> (r: Result<Vec<Token>, ParserError>)
        requires
            old(self).wf(),
        ensures
            final(self).wf(),
            ({
                let p = parameters(old(self).tokens@, old(self).cursor());
                &&& final(self).follows(old(self), p.used, 0, p.errors)
                &&& match r {
                    Ok(list) => p.ok && token_views(list@) == p.names,
                    Err(_) => !p.ok,
                }
            }),
    {
        let ghost total = parameters(self.tokens@, self.cursor());
        let mut list: Vec<Token> = Vec::new();
        assert(token_views(list@) =~= Seq::<crate::token::TokenView>::empty());
        if self.check(&TokenType::RightParen) {
            return Ok(list);
        }
        loop
            invariant
                self.wf(),
                total == parameters(old(self).tokens@, old(self).cursor()),
                self.tokens == old(self).tokens,
                self.current >= old(self).current,
                self.next_id == old(self).next_id,
                ({
                    let rest = more_parameters(self.tokens@, self.cursor(), list@.len());
                    &&& total.used == (self.current - old(self).current) + rest.used
                    &&& total.errors == rest.errors
                    &&& total.ok == rest.ok
                    &&& total.names =~= token_views(list@) + rest.names
                }),
            decreases remaining(self.tokens@, self.current as int),
        {
            if list.len() >= MAX_ARITY {
                let token = self.tokens[self.current].clone();
                self.error(String::from_str("Can't have more than 255 parameters."), &token);
            }
            let ghost before = list@;
            let name = self.consume(&TokenType::Identifier, "Expect parameter name.")?;
            list.push(name);
            proof {
                assert(token_views(list@) =~= token_views(before).push(name@));
            }
            if !self.match_one(&TokenType::Comma) {
                return Ok(list);
            }
        }
    }

    /// A variable declaration whose `var` has been read.
    fn var_declaration(&mut self) -> (r: Result<Stmt, ParserError>)
        requires
            old(self).wf(),
        ensures
            final(self).wf(),
            ({
                let p = var_declaration(old(self).tokens@, old(self).cursor());
                &&& final(self).follows(old(self), p.used, p.minted, p.errors)
                &&& p.minted <= p.used
                &&& match r {
                    Ok(s) => p.ok && s.tree() == p.tree,
                    Err(_) => !p.ok,
                }
            }),
    {
        proof {
            reveal(var_node);
        }
        let name = self.consume(&TokenType::Identifier, "Expect variable name.")?;
        let initializer = if self.match_one(&TokenType::Equal) {
            Some(self.expression()?)
        } else {
            None
        };
        self.consume(&TokenType::Semicolon, "Expect ';' after variable declaration.")?;
        let node = Stmt::Variable(VariableStmt { name, initializer });
        proof {
            node.lemma_tree();
        }
        Ok(node)
    }

    fn statement(&mut self) -> (r: Result<Stmt, ParserError>)
        requires
            old(self).wf(),
        ensures
            final(self).wf(),
            final(self).gives(old(self), r, statement(old(self).tokens@, old(self).cursor()), 0),
        decreases remaining(old(self).tokens@, old(self).current as int), 90int,
    {
        proof {
            lemma_statement(self.tokens@, self.cursor());
        }
        if self.match_one(&TokenType::If) {
            return self.if_statement();
        }
        if self.match_one(&TokenType::While) {
            return self.while_statement();
        }
        if self.match_one(&TokenType::For) {
            return self.for_statement();
        }
        if self.match_one(&TokenType::Print) {
            return self.print_statement();
        }
        if self.match_one(&TokenType::Return) {
            return self.return_statement();
        }
        if self.match_one(&TokenType::LeftBrace) {
            return match self.block() {
                Ok(stmts) => {
                    let node = Stmt::Block(BlockStmt { stmts });
                    proof {
                        node.lemma_tree();
                    }
                    Ok(node)
                },
                Err(e) => Err(e),
            };
        }
        self.expression_statement()
    }

    /// The state after a production that started after a keyword and yields
    /// `p`, and the statement it results in.
    spec fn gives_after(&self, before: &Parser, r: Result<Stmt, ParserError>, p: Parsed) -> bool {
        &&& self.follows(before, p.used, p.minted, p.errors)
        &&& p.minted <= p.used
        &&& match r {
            Ok(s) => p.ok && s.tree() == p.tree,
            Err(_) => !p.ok,
        }
    }

    /// An `if` statement whose `if` has been read.
    fn if_statement(&mut self) -> (r: Result<Stmt, ParserError>)
        requires
            old(self).wf(),
        ensures
            final(self).wf(),
            final(self).gives_after(
                old(self),
                r,
                if_statement(old(self).tokens@, old(self).cursor()),
            ),
        decreases remaining(old(self).tokens@, old(self).current as int), 200int,
    {
        proof {
            reveal(closed);
            reveal(if_node);
        }
        self.consume(&TokenType::LeftParen, "Expect '(' after 'if'.")?;
        let condition = self.expression()?;
        self.consume(&TokenType::RightParen, "Expect ')' after if condition.")?;
        let then_branch = self.statement()?;
        let else_branch = if self.match_one(&TokenType::Else) {
            Some(Box::new(self.statement()?))
        } else {
            None
        };
        let node = Stmt::If(IfStmt { condition, then_branch: Box::new(then_branch), else_branch });
        proof {
            node.lemma_tree();
        }
        Ok(node)
    }

    /// A `while` statement whose `while` has been read.
    fn while_statement(&mut self) -> (r: Result<Stmt, ParserError>)
        requires
            old(self).wf(),
        ensures
            final(self).wf(),
            final(self).gives_after(
                old(self),
                r,
                while_statement(old(self).tokens@, old(self).cursor()),
            ),
        decreases remaining(old(self).tokens@, old(self).current as int), 200int,
    {
        proof {
            reveal(closed);
            reveal(while_node);
        }
        self.consume(&TokenType::LeftParen, "Expect '(' after 'while'.")?;
        let condition = self.expression()?;
        self.consume(&TokenType::RightParen, "Expect ')' after while condition.")?;
        let body = self.statement()?;
        let node = Stmt::While(WhileStmt { condition, body: Box::new(body) });
        proof {
            node.lemma_tree();
        }
        Ok(node)
    }

    /// Two statements as a list.
    fn pair(first: Stmt, second: Stmt) -> (r: Vec<Stmt>)
        ensures
            stmt_trees(r@) == seq![first.tree(), second.tree()],
    {
        let mut r: Vec<Stmt> = Vec::new();
        r.push(first);
        r.push(second);
        proof {
            lemma_stmt_trees_empty();
            lemma_stmt_trees_push(Seq::empty(), first);
            lemma_stmt_trees_push(seq![first], second);
            assert(Seq::<Stmt>::empty().push(first) =~= seq![first]);
            assert(seq![first].push(second) =~= r@);
            assert(Seq::<Tree>::empty().push(first.tree()).push(second.tree()) =~= seq![
                first.tree(),
                second.tree(),
            ]);
        }
        r
    }

    /// The first clause of a `for`: nothing but a `;`, a variable
    /// declaration, or an expression statement.
    fn for_initializer(&mut self) -> (r: Result<Option<Stmt>, ParserError>)
        requires
            old(self).wf(),
        ensures
            final(self).wf(),
            ({
                let p = for_initializer(old(self).tokens@, old(self).cursor());
                &&& final(self).follows(old(self), p.used, p.minted, p.errors)
                &&& p.minted <= p.used
                &&& match r {
                    Ok(initializer) => p.ok && p.trees == statement_or_none(initializer),
                    Err(_) => !p.ok,
                }
            }),
    {
        if self.match_one(&TokenType::Semicolon) {
            Ok(None)
        } else if self.match_one(&TokenType::Var) {
            Ok(Some(self.var_declaration()?))
        } else {
            Ok(Some(self.expression_statement()?))
        }
    }

    /// An optional expression and the token of the kind `end` that closes
    /// it; `message` is reported if that token is missing.
    fn optional(&mut self, end: &TokenType, message: &str) -> (r: Result<Option<Expr>, ParserError>)
        requires
            old(self).wf(),
        ensures
            final(self).wf(),
            ({
                let p = optional(old(self).tokens@, old(self).cursor(), end.kind(), message@);
                &&& final(self).follows(old(self), p.used, p.minted, p.errors)
                &&& p.minted <= p.used
                &&& match r {
                    Ok(e) => p.ok && p.trees == expression_or_none(e),
                    Err(_) => !p.ok,
                }
            }),
    {
        proof {
            reveal(clause);
        }
        let e = if !self.check(end) {
            Some(self.expression()?)
        } else {
            None
        };
        self.consume(end, message)?;
        Ok(e)
    }

    /// The loop that a `for` with these clauses and this body stands for.
    /// The literal `true` that stands for a missing condition gets the next
    /// identity.
    fn desugar(
        &mut self,
        initializer: Option<Stmt>,
        condition: Option<Expr>,
        increment: Option<Expr>,
        body: Stmt,
    ) -> (r: Stmt)
        requires
            old(self).wf(),
            old(self).spare(),
        ensures
            final(self).wf(),
            final(self).follows(
                old(self),
                0,
                if condition is None {
                    1nat
                } else {
                    0nat
                },
                old(self).errors.deep_view(),
            ),
            r.tree() == desugared(
                if condition is None {
                    old(self).next_id as nat
                } else {
                    0nat
                },
                statement_or_none(initializer),
                expression_or_none(condition),
                expression_or_none(increment),
                body.tree(),
            ),
    {
        let stepped = match increment {
            Some(increment) => {
                let step = Stmt::Expression(ExpressionStmt { expr: increment });
                proof {
                    step.lemma_tree();
                }
                let both = Stmt::Block(BlockStmt { stmts: Self::pair(body, step) });
                proof {
                    both.lemma_tree();
                }
                both
            },
            None => body,
        };
        let test = match condition {
            Some(condition) => condition,
            None => {
                let id = self.fresh_id();
                let always = Expr::Literal(
                    LiteralExpr {
                        id,
                        literal_type: LiteralExprType::True,
                        token: Token {
                            token_type: TokenType::True,
                            lexeme: String::from_str("true"),
                            line: 0,
                        },
                    },
                );
                proof {
                    always.lemma_tree();
                }
                always
            },
        };
        let repeated = Stmt::While(WhileStmt { condition: test, body: Box::new(stepped) });
        proof {
            repeated.lemma_tree();
        }
        match initializer {
            Some(initializer) => {
                let whole = Stmt::Block(BlockStmt { stmts: Self::pair(initializer, repeated) });
                proof {
                    whole.lemma_tree();
                }
                whole
            },
            None => repeated,
        }
    }

    /// A `for` statement whose `for` has been read, as the loop it stands
    /// for.
    fn for_statement(&mut self) -> (r: Result<Stmt, ParserError>)
        requires
            old(self).wf(),
            old(self).spare(),
        ensures
            final(self).wf(),
            ({
                let p = for_statement(old(self).tokens@, old(self).cursor());
                &&& final(self).follows(old(self), p.used, p.minted, p.errors)
                &&& p.minted <= p.used + 1
                &&& match r {
                    Ok(s) => p.ok && s.tree() == p.tree,
                    Err(_) => !p.ok,
                }
            }),
        decreases remaining(old(self).tokens@, old(self).current as int), 200int,
    {
        proof {
            reveal(for_node);
        }
        self.consume(&TokenType::LeftParen, "Expect '(' after 'for'.")?;
        let initializer = self.for_initializer()?;
        let condition = self.optional(&TokenType::Semicolon, "Expect ';' after loop condition.")?;
        let increment = self.optional(&TokenType::RightParen, "Expect ')' after for clauses.")?;
        let body = self.statement()?;
        Ok(self.desugar(initializer, condition, increment, body))
    }

    /// A `print` statement whose `print` has been read.
    fn print_statement(&mut self) -> (r: Result<Stmt, ParserError>)
        requires
            old(self).wf(),
        ensures
            final(self).wf(),
            final(self).gives_after(
                old(self),
                r,
                print_statement(old(self).tokens@, old(self).cursor()),
            ),
    {
        proof {
            reveal(ended);
        }
        let value = self.expression()?;
        self.consume(&TokenType::Semicolon, "Expect ';' after value.")?;
        let node = Stmt::Print(PrintStmt { expr: value });
        proof {
            node.lemma_tree();
        }
        Ok(node)
    }

    /// A `return` statement whose `return` has been read.
    fn return_statement(&mut self) -> (r: Result<Stmt, ParserError>)
        requires
            old(self).wf(),
            old(self).current > 0,
        ensures
            final(self).wf(),
            final(self).gives_after(
                old(self),
                r,
                return_statement(old(self).tokens@, old(self).cursor()),
            ),
    {
        proof {
            reveal(return_node);
        }
        let keyword = self.tokens[self.current - 1].clone();
        let value = if !self.check(&TokenType::Semicolon) {
            Some(self.expression()?)
        } else {
            None
        };
        self.consume(&TokenType::Semicolon, "Expect ';' after return value.")?;
        let node = Stmt::Return(ReturnStmt { keyword, value });
        proof {
            node.lemma_tree();
        }
        Ok(node)
    }

    fn expression_statement(&mut self) -> (r: Result<Stmt, ParserError>)
        requires
            old(self).wf(),
        ensures
            final(self).wf(),
            final(self).gives(
                old(self),
                r,
                expression_statement(old(self).tokens@, old(self).cursor()),
                0,
            ),
    {
        proof {
            reveal(ended);
        }
        let expr = self.expression()?;
        self.consume(&TokenType::Semicolon, "Expect ';' after expression.")?;
        let node = Stmt::Expression(ExpressionStmt { expr });
        proof {
            node.lemma_tree();
        }
        Ok(node)
    }

    /// The declarations of a block whose `{` has been read, and its `}`.
    fn block(&mut self) -> (r: Result<Vec<Stmt>, ParserError>)
        requires
            old(self).wf(),
        ensures
            final(self).wf(),
            final(self).gives_list(old(self), r, block(old(self).tokens@, old(self).cursor())),
        decreases remaining(old(self).tokens@, old(self).current as int), 200int,
    {
        proof {
            reveal(block_end);
        }
        let statements = self.items(true);
        self.consume(&TokenType::RightBrace, "Expect '}' after block.")?;
        Ok(statements)
    }

    /// The state after a production that yields `p`, and its result.
    spec fn yields(&self, before: &Parser, r: Result<Expr, ParserError>, p: Parsed) -> bool {
        &&& self.follows(before, p.used, p.minted, p.errors)
        &&& p.minted <= p.used
        &&& p.ok ==> p.used > 0
        &&& match r {
            Ok(e) => p.ok && e.tree() == p.tree,
            Err(_) => !p.ok,
        }
    }

    /// The state in the middle of a production that started in `before`:
    /// what the production yields in all is what has been read so far
    /// followed by `rest`.
    spec fn midway(&self, before: &Parser, total: Parsed, rest: Parsed) -> bool {
        &&& self.tokens == before.tokens
        &&& self.current >= before.current
        &&& self.next_id >= before.next_id
        &&& total.used == (self.current - before.current) + rest.used
        &&& total.minted == (self.next_id - before.next_id) + rest.minted
        &&& total.errors == rest.errors
        &&& total.ok == rest.ok
        &&& total.tree == rest.tree
        &&& self.next_id - self.current <= before.next_id - before.current
    }

    /// Hands out the next expression identity.
    fn fresh_id(&mut self) -> (id: usize)
        requires
            old(self).wf(),
            old(self).next_id + (old(self).tokens@.len() - old(self).current) < usize::MAX,
        ensures
            final(self).wf(),
            id == old(self).next_id,
            final(self).follows(old(self), 0, 1, old(self).errors.deep_view()),
    {
        let id = self.next_id;
        self.next_id = id + 1;
        id
    }

    /// The binary operator that a token is at a level of precedence.
    fn binary_operator(level: u8, token_type: &TokenType) -> (r: Option<BinaryExprOp>)
        ensures
            r == binary_op(level as nat, token_type.kind()),
            r is Some ==> token_type.kind() != TokenType::EOF.kind(),
    {
        proof {
            reveal(TokenType::kind);
        }
        match token_type {
            TokenType::BangEqual => if level == 0 {
                Some(BinaryExprOp::NotEqual)
            } else {
                None
            },
            TokenType::EqualEqual => if level == 0 {
                Some(BinaryExprOp::EqualEqual)
            } else {
                None
            },
            TokenType::Greater => if level == 1 {
                Some(BinaryExprOp::Greater)
            } else {
                None
            },
            TokenType::GreaterEqual => if level == 1 {
                Some(BinaryExprOp::GreaterEqual)
            } else {
                None
            },
            TokenType::Less => if level == 1 {
                Some(BinaryExprOp::Less)
            } else {
                None
            },
            TokenType::LessEqual => if level == 1 {
                Some(BinaryExprOp::LessEqual)
            } else {
                None
            },
            TokenType::Minus => if level == 2 {
                Some(BinaryExprOp::Minus)
            } else {
                None
            },
            TokenType::Plus => if level == 2 {
                Some(BinaryExprOp::Plus)
            } else {
                None
            },
            TokenType::Slash => if level == 3 {
                Some(BinaryExprOp::Divide)
            } else {
                None
            },
            TokenType::Star => if level == 3 {
                Some(BinaryExprOp::Times)
            } else {
                None
            },
            _ => None,
        }
    }

    /// The unary operator that a token is.
    fn unary_operator(token_type: &TokenType) -> (r: Option<UnaryExprOp>)
        ensures
            r == unary_op(token_type.kind()),
            r is Some ==> token_type.kind() != TokenType::EOF.kind(),
    {
        proof {
            reveal(TokenType::kind);
        }
        match token_type {
            TokenType::Bang => Some(UnaryExprOp::Not),
            TokenType::Minus => Some(UnaryExprOp::Minus),
            _ => None,
        }
    }

    /// The node that a token is by itself: a literal, `this` or a variable.
    fn atom_of(token_type: &TokenType) -> (r: Option<Tag>)
        ensures
            r == atom_tag(token_type.kind()),
            r is Some ==> token_type.kind() != TokenType::EOF.kind(),
            r matches Some(tag) ==> tag is Literal || tag is This || tag is Variable,
    {
        proof {
            reveal(TokenType::kind);
        }
        match token_type {
            TokenType::False => Some(Tag::Literal(LiteralExprType::False)),
            TokenType::True => Some(Tag::Literal(LiteralExprType::True)),
            TokenType::Nil => Some(Tag::Literal(LiteralExprType::Nil)),
            TokenType::Number(_) => Some(Tag::Literal(LiteralExprType::Number)),
            TokenType::String(_) => Some(Tag::Literal(LiteralExprType::String)),
            TokenType::This => Some(Tag::This),
            TokenType::Identifier => Some(Tag::Variable),
            _ => None,
        }
    }

    fn expression(&mut self) -> (r: Result<Expr, ParserError>)
        requires
            old(self).wf(),
        ensures
            final(self).wf(),
            final(self).yields(old(self), r, expression(old(self).tokens@, old(self).cursor())),
        decreases remaining(old(self).tokens@, old(self).current as int), 61int,
    {
        proof {
            lemma_expression(self.tokens@, self.cursor());
        }
        self.assignment()
    }

    fn assignment(&mut self) -> (r: Result<Expr, ParserError>)
        requires
            old(self).wf(),
        ensures
            final(self).wf(),
            final(self).yields(old(self), r, assignment(old(self).tokens@, old(self).cursor())),
        decreases remaining(old(self).tokens@, old(self).current as int), 60int,
    {
        proof {
            reveal(assign_node);
        }
        let expr = self.or()?;
        if self.check(&TokenType::Equal) {
            let equals = self.tokens[self.current].clone();
            self.advance();
            let value = self.assignment()?;
            proof {
                expr.lemma_tree();
            }
            return match expr {
                Expr::Variable(target) => {
                    let id = self.fresh_id();
                    let node = Expr::Assignment(
                        AssignmentExpr { id, name: target.name, value: Box::new(value) },
                    );
                    proof {
                        node.lemma_tree();
                    }
                    Ok(node)
                },
                Expr::Get(target) => {
                    let id = self.fresh_id();
                    let node = Expr::SetProperty(
                        SetExpr {
                            id,
                            object: target.object,
                            name: target.name,
                            value: Box::new(value),
                        },
                    );
                    proof {
                        node.lemma_tree();
                    }
                    Ok(node)
                },
                _ => Err(self.error(String::from_str("Invalid assignment target."), &equals)),
            };
        }
        Ok(expr)
    }

    fn or(&mut self) -> (r: Result<Expr, ParserError>)
        requires
            old(self).wf(),
        ensures
            final(self).wf(),
            final(self).yields(old(self), r, logical(old(self).tokens@, old(self).cursor(), 0)),
        decreases remaining(old(self).tokens@, old(self).current as int), 54int,
    {
        self.logical_level(0)
    }

    fn and(&mut self) -> (r: Result<Expr, ParserError>)
        requires
            old(self).wf(),
        ensures
            final(self).wf(),
            final(self).yields(old(self), r, logical(old(self).tokens@, old(self).cursor(), 1)),
        decreases remaining(old(self).tokens@, old(self).current as int), 52int,
    {
        self.logical_level(1)
    }

    /// A chain of `or` (level 0) or of `and` (level 1).
    fn logical_level(&mut self, level: u8) -> (r: Result<Expr, ParserError>)
        requires
            old(self).wf(),
            level <= 1,
        ensures
            final(self).wf(),
            final(self).yields(
                old(self),
                r,
                logical(old(self).tokens@, old(self).cursor(), level as nat),
            ),
        decreases remaining(old(self).tokens@, old(self).current as int), 53 - 2 * level,
    {
        proof {
            reveal(infix_node);
        }
        let ghost total = logical(self.tokens@, self.cursor(), level as nat);
        proof {
            lemma_logical_operand(self.tokens@, self.cursor(), level as nat);
        }
        let mut expr = if level == 0 {
            self.and()?
        } else {
            self.equality()?
        };
        loop
            invariant
                self.wf(),
                level <= 1,
                total == logical(old(self).tokens@, old(self).cursor(), level as nat),
                self.current > old(self).current,
                self.midway(
                    old(self),
                    total,
                    logical_rest(self.tokens@, self.cursor(), expr.tree(), level as nat),
                ),
            decreases remaining(self.tokens@, self.current as int),
        {
            proof {
                reveal(infix_node);
            }
            let found = if level == 0 {
                self.check(&TokenType::Or)
            } else {
                self.check(&TokenType::And)
            };
            if !found {
                return Ok(expr);
            }
            let operator = self.tokens[self.current].clone();
            self.advance();
            proof {
                lemma_logical_operand(self.tokens@, self.cursor(), level as nat);
            }
            let right = if level == 0 {
                self.and()?
            } else {
                self.equality()?
            };
            let id = self.fresh_id();
            expr = Expr::Logical(
                LogicalExpr { id, left: Box::new(expr), operator, right: Box::new(right) },
            );
            proof {
                expr.lemma_tree();
            }
        }
    }

    fn equality(&mut self) -> (r: Result<Expr, ParserError>)
        requires
            old(self).wf(),
        ensures
            final(self).wf(),
            final(self).yields(old(self), r, binary(old(self).tokens@, old(self).cursor(), 0)),
        decreases remaining(old(self).tokens@, old(self).current as int), 46int,
    {
        self.binary_level(0)
    }

    fn comparison(&mut self) -> (r: Result<Expr, ParserError>)
        requires
            old(self).wf(),
        ensures
            final(self).wf(),
            final(self).yields(old(self), r, binary(old(self).tokens@, old(self).cursor(), 1)),
        decreases remaining(old(self).tokens@, old(self).current as int), 42int,
    {
        self.binary_level(1)
    }

    fn term(&mut self) -> (r: Result<Expr, ParserError>)
        requires
            old(self).wf(),
        ensures
            final(self).wf(),
            final(self).yields(old(self), r, binary(old(self).tokens@, old(self).cursor(), 2)),
        decreases remaining(old(self).tokens@, old(self).current as int), 38int,
    {
        self.binary_level(2)
    }

    fn factor(&mut self) -> (r: Result<Expr, ParserError>)
        requires
            old(self).wf(),
        ensures
            final(self).wf(),
            final(self).yields(old(self), r, binary(old(self).tokens@, old(self).cursor(), 3)),
        decreases remaining(old(self).tokens@, old(self).current as int), 34int,
    {
        self.binary_level(3)
    }

    /// An operand of the binary operators of a level.
    fn operand(&mut self, level: u8) -> (r: Result<Expr, ParserError>)
        requires
            old(self).wf(),
            level <= 3,
        ensures
            final(self).wf(),
            final(self).yields(
                old(self),
                r,
                crate::grammar::operand(old(self).tokens@, old(self).cursor(), level as nat),
            ),
        decreases remaining(old(self).tokens@, old(self).current as int), 44 - 4 * level,
    {
        proof {
            lemma_operand(self.tokens@, self.cursor(), level as nat);
        }
        if level == 0 {
            self.comparison()
        } else if level == 1 {
            self.term()
        } else if level == 2 {
            self.factor()
        } else {
            self.unary()
        }
    }

    /// A left-associative chain of the binary operators of a level: 0 for
    /// equality, 1 for comparison, 2 for terms, 3 for factors.
    fn binary_level(&mut self, level: u8) -> (r: Result<Expr, ParserError>)
        requires
            old(self).wf(),
            level <= 3,
        ensures
            final(self).wf(),
            final(self).yields(
                old(self),
                r,
                binary(old(self).tokens@, old(self).cursor(), level as nat),
            ),
        decreases remaining(old(self).tokens@, old(self).current as int), 45 - 4 * level,
    {
        proof {
            reveal(infix_node);
        }
        let ghost total = binary(self.tokens@, self.cursor(), level as nat);
        let mut expr = self.operand(level)?;
        loop
            invariant
                self.wf(),
                level <= 3,
                total == binary(old(self).tokens@, old(self).cursor(), level as nat),
                self.current > old(self).current,
                self.midway(
                    old(self),
                    total,
                    binary_rest(self.tokens@, self.cursor(), expr.tree(), level as nat),
                ),
            decreases remaining(self.tokens@, self.current as int),
        {
            proof {
                reveal(infix_node);
            }
            let op = Self::binary_operator(level, &self.tokens[self.current].token_type);
            let op = match op {
                Some(op) => op,
                None => {
                    return Ok(expr);
                },
            };
            let op_token = self.tokens[self.current].clone();
            self.advance();
            let right = self.operand(level)?;
            let id = self.fresh_id();
            expr = Expr::Binary(
                BinaryExpr { id, left: Box::new(expr), op: (op, op_token), right: Box::new(right) },
            );
            proof {
                expr.lemma_tree();
            }
        }
    }

    fn unary(&mut self) -> (r: Result<Expr, ParserError>)
        requires
            old(self).wf(),
        ensures
            final(self).wf(),
            final(self).yields(old(self), r, unary(old(self).tokens@, old(self).cursor())),
        decreases remaining(old(self).tokens@, old(self).current as int), 30int,
    {
        proof {
            reveal(unary_node);
        }
        let op = Self::unary_operator(&self.tokens[self.current].token_type);
        if let Some(op) = op {
            let op_token = self.tokens[self.current].clone();
            self.advance();
            let right = self.unary()?;
            let id = self.fresh_id();
            let node = Expr::Unary(UnaryExpr { id, op: (op, op_token), right: Box::new(right) });
            proof {
                node.lemma_tree();
            }
            return Ok(node);
        }
        self.call()
    }

    fn call(&mut self) -> (r: Result<Expr, ParserError>)
        requires
            old(self).wf(),
        ensures
            final(self).wf(),
            final(self).yields(old(self), r, postfix(old(self).tokens@, old(self).cursor())),
        decreases remaining(old(self).tokens@, old(self).current as int), 29int,
    {
        proof {
            reveal(get_node);
        }
        let ghost total = postfix(self.tokens@, self.cursor());
        let mut expr = self.primary()?;
        loop
            invariant
                self.wf(),
                total == postfix(old(self).tokens@, old(self).cursor()),
                self.current > old(self).current,
                self.midway(old(self), total, postfix_rest(self.tokens@, self.cursor(), expr.tree())),
            decreases remaining(self.tokens@, self.current as int),
        {
            proof {
                reveal(get_node);
            }
            let ghost head = *self;
            let ghost rest = postfix_rest(self.tokens@, self.cursor(), expr.tree());
            let ghost callee = expr.tree();
            if self.match_one(&TokenType::LeftParen) {
                let ghost fc = finish_call(self.tokens@, self.cursor(), callee);
                let made = self.finish_call(expr);
                match made {
                    Ok(e) => {
                        expr = e;
                    },
                    Err(e) => {
                        assert(postfix_step(self.tokens@, head.cursor(), callee) == after_token(fc));
                        assert(rest == after_token(fc));
                        return Err(e);
                    },
                }
            } else if self.match_one(&TokenType::Dot) {
                let name = self.consume(&TokenType::Identifier, "Expect property name after '.'.")?;
                let id = self.fresh_id();
                expr = Expr::Get(GetExpr { id, object: Box::new(expr), name });
                proof {
                    expr.lemma_tree();
                }
            } else {
                return Ok(expr);
            }
        }
    }

    /// The arguments, the `)` and the call node of a call of `callee` whose
    /// `(` has been read.
    fn finish_call(&mut self, callee: Expr) -> (r: Result<Expr, ParserError>)
        requires
            old(self).wf(),
            old(self).next_id + (old(self).tokens@.len() - old(self).current) < usize::MAX,
        ensures
            final(self).wf(),
            ({
                let p = finish_call(old(self).tokens@, old(self).cursor(), callee.tree());
                &&& final(self).follows(old(self), p.used, p.minted, p.errors)
                &&& p.minted <= p.used + 1
                &&& match r {
                    Ok(e) => p.ok && e.tree() == p.tree,
                    Err(_) => !p.ok,
                }
            }),
        decreases remaining(old(self).tokens@, old(self).current as int), 72int,
    {
        proof {
            reveal(call_node);
            lemma_finish_call(self.tokens@, self.cursor(), callee.tree());
        }
        let list = self.arguments()?;
        let paren = self.consume(&TokenType::RightParen, "Expect ')' after arguments.")?;
        let id = self.fresh_id();
        let node = Expr::Call(CallExpr { id, callee: Box::new(callee), paren, arguments: list });
        proof {
            node.lemma_tree();
        }
        Ok(node)
    }

    /// The arguments of a call whose `(` has been read, up to the `)`.
    fn arguments(&mut self) -> (r: Result<Vec<Expr>, ParserError>)
        requires
            old(self).wf(),
            old(self).next_id + (old(self).tokens@.len() - old(self).current) < usize::MAX,
        ensures
            final(self).wf(),
            final(self).next_id + (final(self).tokens@.len() - final(self).current) < usize::MAX,
            ({
                let p = arguments(old(self).tokens@, old(self).cursor());
                &&& final(self).follows(old(self), p.used, p.minted, p.errors)
                &&& p.minted <= p.used
                &&& match r {
                    Ok(list) => p.ok && expr_trees(list@) == p.trees,
                    Err(_) => !p.ok,
                }
            }),
        decreases remaining(old(self).tokens@, old(self).current as int), 71int,
    {
        let ghost total = arguments(self.tokens@, self.cursor());
        let mut list: Vec<Expr> = Vec::new();
        proof {
            lemma_expr_trees_empty();
        }
        if self.check(&TokenType::RightParen) {
            return Ok(list);
        }
        loop
            invariant
                self.wf(),
                total == arguments(old(self).tokens@, old(self).cursor()),
                self.next_id + (self.tokens@.len() - self.current) < usize::MAX,
                self.tokens == old(self).tokens,
                self.current >= old(self).current,
                self.next_id - self.current <= old(self).next_id - old(self).current,
                ({
                    let rest = more_arguments(self.tokens@, self.cursor(), list@.len());
                    &&& total.used == (self.current - old(self).current) + rest.used
                    &&& total.minted == (self.next_id - old(self).next_id) + rest.minted
                    &&& total.errors == rest.errors
                    &&& total.ok == rest.ok
                    &&& total.trees =~= expr_trees(list@) + rest.trees
                }),
            decreases remaining(self.tokens@, self.current as int),
        {
            if list.len() >= MAX_ARITY {
                let token = self.tokens[self.current].clone();
                self.error(String::from_str("Can't have more than 255 arguments."), &token);
            }
            let ghost before = list@;
            let argument = self.expression()?;
            list.push(argument);
            proof {
                lemma_expr_trees_push(before, argument);
            }
            if !self.match_one(&TokenType::Comma) {
                return Ok(list);
            }
        }
    }

    fn primary(&mut self) -> (r: Result<Expr, ParserError>)
        requires
            old(self).wf(),
        ensures
            final(self).wf(),
            final(self).yields(old(self), r, primary(old(self).tokens@, old(self).cursor())),
        decreases remaining(old(self).tokens@, old(self).current as int), 27int,
    {
        proof {
            reveal(atom);
            reveal(grouping);
        }
        let token = self.tokens[self.current].clone();
        if self.match_one(&TokenType::LeftParen) {
            let expr = self.expression()?;
            let right = self.consume(&TokenType::RightParen, "Expect ')' after expression.")?;
            let id = self.fresh_id();
            let node = Expr::Grouping(
                GroupingExpr { id, left: token, expr: Box::new(expr), right },
            );
            proof {
                node.lemma_tree();
            }
            return Ok(node);
        }
        match Self::atom_of(&token.token_type) {
            Some(tag) => {
                self.advance();
                let id = self.fresh_id();
                let node = match tag {
                    Tag::Literal(literal_type) => Expr::Literal(
                        LiteralExpr { id, literal_type, token },
                    ),
                    Tag::This => Expr::This(ThisExpr { id, keyword: token }),
                    _ => Expr::Variable(VariableExpr { id, name: token }),
                };
                proof {
                    node.lemma_tree();
                }
                Ok(node)
            },
            None => Err(self.error(String::from_str("Expect expression."), &token)),
        }
    }
}

} // verus!
