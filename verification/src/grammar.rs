//! The grammar of Lox as functions on a token sequence: what the parser
//! returns, which tokens it reads, which identities it hands out and which
//! diagnostics it reports.
use vstd::prelude::*;
use crate::ast::expr::{BinaryExprOp, LiteralExprType, UnaryExprOp};
use crate::ast::tree::{Tag, Tree};
use crate::lox::{report_text, token_location};
use crate::token::{Token, TokenView};
use crate::token_type::{TokenType, KIND_NUMBER, KIND_STRING};

verus! {

/// The tokens are not empty and the last one is `EOF`.
pub open spec fn well_ended(tokens: Seq<Token>) -> bool {
    tokens.len() > 0 && kind_at(tokens, tokens.len() - 1) == TokenType::EOF.kind()
}

/// The kind of the token at `pos`.
pub open spec fn kind_at(tokens: Seq<Token>, pos: int) -> nat {
    tokens[pos].token_type.kind()
}

/// No token is left to read at `pos`: it is `EOF`, or past the tokens.
pub open spec fn at_end(tokens: Seq<Token>, pos: int) -> bool {
    pos >= tokens.len() || pos < 0 || kind_at(tokens, pos) == TokenType::EOF.kind()
}

/// The token at `pos` is of the given kind.  `EOF` is never matched.
pub open spec fn check_at(tokens: Seq<Token>, pos: int, kind: nat) -> bool {
    !at_end(tokens, pos) && kind_at(tokens, pos) == kind
}

/// The diagnostic line for `message` at `token`.
#[verifier::opaque]
pub open spec fn diagnostic(token: Token, message: Seq<char>) -> Seq<char> {
    report_text(token.line as nat, token_location(token), message)
}

/// Whether a token of this kind begins a statement.
pub open spec fn begins_statement(kind: nat) -> bool {
    ||| kind == TokenType::Class.kind()
    ||| kind == TokenType::For.kind()
    ||| kind == TokenType::Fun.kind()
    ||| kind == TokenType::If.kind()
    ||| kind == TokenType::Print.kind()
    ||| kind == TokenType::Return.kind()
    ||| kind == TokenType::Var.kind()
    ||| kind == TokenType::While.kind()
}

/// Where recovery stops once it is past the first skipped token: at the
/// end, after a `;`, or before a keyword that begins a statement.
pub open spec fn resume_loop(tokens: Seq<Token>, pos: int) -> int
    decreases tokens.len() - pos,
{
    if at_end(tokens, pos) {
        pos
    } else if pos > 0 && kind_at(tokens, pos - 1) == TokenType::Semicolon.kind() {
        pos
    } else if begins_statement(kind_at(tokens, pos)) {
        pos
    } else {
        resume_loop(tokens, pos + 1)
    }
}

/// Where parsing resumes after an error at `pos`.
pub open spec fn resume_at(tokens: Seq<Token>, pos: int) -> int {
    if at_end(tokens, pos) {
        pos
    } else {
        resume_loop(tokens, pos + 1)
    }
}

pub proof fn lemma_resume_bounded(tokens: Seq<Token>, pos: int)
    requires
        well_ended(tokens),
        0 <= pos < tokens.len(),
    ensures
        pos <= resume_loop(tokens, pos) < tokens.len(),
        pos <= resume_at(tokens, pos) < tokens.len(),
        !at_end(tokens, pos) ==> pos < resume_at(tokens, pos),
    decreases tokens.len() - pos,
{
    if pos + 1 < tokens.len() {
        lemma_resume_bounded(tokens, pos + 1);
    }
}

/// `level`, or `top` if `level` is above it.
pub open spec fn capped(level: nat, top: nat) -> nat {
    if level <= top {
        level
    } else {
        top
    }
}

/// How many tokens stand at or after `pos`.
pub open spec fn remaining(tokens: Seq<Token>, pos: int) -> nat {
    if pos < tokens.len() {
        (tokens.len() - pos) as nat
    } else {
        0
    }
}

/// Where a production starts: the position of the next token, the next
/// expression identity, and the diagnostics reported so far.
pub struct Cursor {
    pub pos: int,
    pub id: int,
    pub errors: Seq<Seq<char>>,
}

/// What a production yields: how many tokens it read, how many identities it
/// handed out, the diagnostics reported once it is done (those reported
/// before it included), whether it succeeded, and, if it did, its tree.
pub struct Parsed {
    pub used: nat,
    pub minted: nat,
    pub errors: Seq<Seq<char>>,
    pub ok: bool,
    pub tree: Tree,
}

/// What a production that yields a list of trees yields.
pub struct ParsedList {
    pub used: nat,
    pub minted: nat,
    pub errors: Seq<Seq<char>>,
    pub ok: bool,
    pub trees: Seq<Tree>,
}

impl Cursor {
    /// The cursor after `n` more tokens.
    pub open spec fn skip(self, n: nat) -> Cursor {
        Cursor { pos: self.pos + n, ..self }
    }

    /// The cursor after `n` more identities.
    pub open spec fn mint(self, n: nat) -> Cursor {
        Cursor { id: self.id + n, ..self }
    }

    /// The cursor after a production that started here.
    pub open spec fn after(self, p: Parsed) -> Cursor {
        Cursor { pos: self.pos + p.used, id: self.id + p.minted, errors: p.errors }
    }

    /// The cursor after a list production that started here.
    pub open spec fn after_list(self, p: ParsedList) -> Cursor {
        Cursor { pos: self.pos + p.used, id: self.id + p.minted, errors: p.errors }
    }

    /// The diagnostics once `message` has been reported at `token`.
    pub open spec fn complain(self, token: Token, message: Seq<char>) -> Seq<Seq<char>> {
        self.errors.push(diagnostic(token, message))
    }
}

/// The tree that stands in a failed [`Parsed`].
pub open spec fn no_tree() -> Tree {
    Tree { tag: Tag::Block, id: 0, tokens: Seq::empty(), kids: Seq::empty() }
}

pub open spec fn failed(used: nat, minted: nat, errors: Seq<Seq<char>>) -> Parsed {
    Parsed { used, minted, errors, ok: false, tree: no_tree() }
}

pub open spec fn parsed(used: nat, minted: nat, errors: Seq<Seq<char>>, tree: Tree) -> Parsed {
    Parsed { used, minted, errors, ok: true, tree }
}

pub open spec fn failed_list(used: nat, minted: nat, errors: Seq<Seq<char>>) -> ParsedList {
    ParsedList { used, minted, errors, ok: false, trees: Seq::empty() }
}

pub open spec fn parsed_list(
    used: nat,
    minted: nat,
    errors: Seq<Seq<char>>,
    trees: Seq<Tree>,
) -> ParsedList {
    ParsedList { used, minted, errors, ok: true, trees }
}

/// `first`, and after it `next` if `first` succeeded; `next` starts where
/// `first` ended and carries the result.
pub open spec fn chain(first: Parsed, next: Parsed) -> Parsed {
    if first.ok {
        Parsed { used: first.used + next.used, minted: first.minted + next.minted, ..next }
    } else {
        first
    }
}

/// A production that follows one more token than `p` read.
pub open spec fn after_token(p: Parsed) -> Parsed {
    Parsed { used: p.used + 1, ..p }
}

/// The most arguments a call may have, and the most parameters a function.
pub const MAX_ARITY: usize = 255;

pub open spec fn is_kind(tokens: Seq<Token>, pos: int, token_type: TokenType) -> bool {
    check_at(tokens, pos, token_type.kind())
}

/// The node that a token of this kind is by itself, if it is one: a
/// literal, `this`, or a variable.
pub open spec fn atom_tag(kind: nat) -> Option<Tag> {
    if kind == TokenType::False.kind() {
        Some(Tag::Literal(LiteralExprType::False))
    } else if kind == TokenType::True.kind() {
        Some(Tag::Literal(LiteralExprType::True))
    } else if kind == TokenType::Nil.kind() {
        Some(Tag::Literal(LiteralExprType::Nil))
    } else if kind == KIND_NUMBER {
        Some(Tag::Literal(LiteralExprType::Number))
    } else if kind == KIND_STRING {
        Some(Tag::Literal(LiteralExprType::String))
    } else if kind == TokenType::This.kind() {
        Some(Tag::This)
    } else if kind == TokenType::Identifier.kind() {
        Some(Tag::Variable)
    } else {
        None
    }
}

/// The primary expressions of one token: `"true" | "false" | "nil" | "this"
/// | NUMBER | STRING | IDENT`; any other token is reported.
#[verifier::opaque]
pub open spec fn atom(tokens: Seq<Token>, c: Cursor) -> Parsed {
    if !at_end(tokens, c.pos) && atom_tag(kind_at(tokens, c.pos)) is Some {
        parsed(
            1,
            1,
            c.errors,
            Tree {
                tag: atom_tag(kind_at(tokens, c.pos))->0,
                id: c.id as nat,
                tokens: seq![tokens[c.pos]@],
                kids: Seq::empty(),
            },
        )
    } else {
        failed(0, 0, c.complain(tokens[c.pos], "Expect expression."@))
    }
}

/// `"(" expression ")"` at the cursor, given what the expression yields.
#[verifier::opaque]
pub open spec fn grouping(tokens: Seq<Token>, c: Cursor, inner: Parsed) -> Parsed {
    let close = c.pos + 1 + inner.used;
    if !inner.ok {
        failed(1 + inner.used, inner.minted, inner.errors)
    } else if is_kind(tokens, close, TokenType::RightParen) {
        parsed(
            2 + inner.used,
            inner.minted + 1,
            inner.errors,
            Tree {
                tag: Tag::Grouping,
                id: (c.id + inner.minted) as nat,
                tokens: seq![tokens[c.pos]@, tokens[close]@],
                kids: seq![inner.tree],
            },
        )
    } else {
        failed(
            1 + inner.used,
            inner.minted,
            c.after(inner).complain(tokens[close], "Expect ')' after expression."@),
        )
    }
}

/// `primary := "true" | "false" | "nil" | "this" | NUMBER | STRING | IDENT
/// | "(" expression ")"`
pub open spec fn primary(tokens: Seq<Token>, c: Cursor) -> Parsed
    decreases remaining(tokens, c.pos), 27int,
{
    if is_kind(tokens, c.pos, TokenType::LeftParen) {
        grouping(tokens, c, expression(tokens, c.skip(1)))
    } else {
        atom(tokens, c)
    }
}

/// The cursor once the limit on arguments or parameters has been checked
/// for one that `count` others came before: beyond the limit `message` is
/// reported at the next token, and parsing goes on.
pub open spec fn limit_checked(tokens: Seq<Token>, c: Cursor, count: nat, message: Seq<char>) -> Cursor {
    if count >= MAX_ARITY {
        Cursor { errors: c.complain(tokens[c.pos], message), ..c }
    } else {
        c
    }
}

/// The last argument of a call, given what its expression yields.
pub open spec fn last_argument(first: Parsed) -> ParsedList {
    ParsedList {
        used: first.used,
        minted: first.minted,
        errors: first.errors,
        ok: first.ok,
        trees: if first.ok {
            seq![first.tree]
        } else {
            Seq::empty()
        },
    }
}

/// An argument, a comma, and the arguments after it.
pub open spec fn argument_and(first: Parsed, rest: ParsedList) -> ParsedList {
    ParsedList {
        used: first.used + 1 + rest.used,
        minted: first.minted + rest.minted,
        errors: rest.errors,
        ok: rest.ok,
        trees: seq![first.tree] + rest.trees,
    }
}

/// One argument and those after it; `count` arguments came before.
pub open spec fn more_arguments(tokens: Seq<Token>, c: Cursor, count: nat) -> ParsedList
    decreases remaining(tokens, c.pos), 70int,
{
    let start = limit_checked(tokens, c, count, "Can't have more than 255 arguments."@);
    let first = expression(tokens, start);
    if first.ok && is_kind(tokens, c.pos + first.used, TokenType::Comma) {
        argument_and(first, more_arguments(tokens, start.after(first).skip(1), count + 1))
    } else {
        last_argument(first)
    }
}

/// The arguments of a call after its `(`, up to but without the `)`.
pub open spec fn arguments(tokens: Seq<Token>, c: Cursor) -> ParsedList
    decreases remaining(tokens, c.pos), 71int,
{
    if is_kind(tokens, c.pos, TokenType::RightParen) {
        parsed_list(0, 0, c.errors, Seq::empty())
    } else {
        more_arguments(tokens, c, 0)
    }
}

/// The `)` of a call of `callee` and the call node, given what the
/// arguments from the cursor on yield.
#[verifier::opaque]
pub open spec fn call_node(tokens: Seq<Token>, c: Cursor, callee: Tree, args: ParsedList) -> Parsed {
    let close = c.pos + args.used;
    if !args.ok {
        failed(args.used, args.minted, args.errors)
    } else if is_kind(tokens, close, TokenType::RightParen) {
        parsed(
            args.used + 1,
            args.minted + 1,
            args.errors,
            Tree {
                tag: Tag::Call,
                id: (c.id + args.minted) as nat,
                tokens: seq![tokens[close]@],
                kids: seq![callee] + args.trees,
            },
        )
    } else {
        failed(
            args.used,
            args.minted,
            c.after_list(args).complain(tokens[close], "Expect ')' after arguments."@),
        )
    }
}

/// A call's arguments, its `)` and the call node, after the `(` of a call
/// of `callee`.
#[verifier::opaque]
pub open spec fn finish_call(tokens: Seq<Token>, c: Cursor, callee: Tree) -> Parsed
    decreases remaining(tokens, c.pos), 72int,
{
    call_node(tokens, c, callee, arguments(tokens, c))
}

/// `"." IDENT` at the cursor after `object`.
#[verifier::opaque]
pub open spec fn get_node(tokens: Seq<Token>, c: Cursor, object: Tree) -> Parsed {
    if is_kind(tokens, c.pos + 1, TokenType::Identifier) {
        parsed(
            2,
            1,
            c.errors,
            Tree {
                tag: Tag::Get,
                id: c.id as nat,
                tokens: seq![tokens[c.pos + 1]@],
                kids: seq![object],
            },
        )
    } else {
        failed(1, 0, c.complain(tokens[c.pos + 1], "Expect property name after '.'."@))
    }
}

/// One call or property access at the cursor after `callee`.
pub open spec fn postfix_step(tokens: Seq<Token>, c: Cursor, callee: Tree) -> Parsed
    decreases remaining(tokens, c.pos), 26int,
{
    if is_kind(tokens, c.pos, TokenType::LeftParen) {
        after_token(finish_call(tokens, c.skip(1), callee))
    } else {
        get_node(tokens, c, callee)
    }
}

/// The calls and property accesses that follow `callee`.
pub open spec fn postfix_rest(tokens: Seq<Token>, c: Cursor, callee: Tree) -> Parsed
    decreases remaining(tokens, c.pos), 28int,
{
    if is_kind(tokens, c.pos, TokenType::LeftParen) || is_kind(tokens, c.pos, TokenType::Dot) {
        let step = postfix_step(tokens, c, callee);
        if step.ok && step.used > 0 {
            chain(step, postfix_rest(tokens, c.after(step), step.tree))
        } else {
            step
        }
    } else {
        parsed(0, 0, c.errors, callee)
    }
}

/// `call := primary ( "(" arguments? ")" | "." IDENT )*`
pub open spec fn postfix(tokens: Seq<Token>, c: Cursor) -> Parsed
    decreases remaining(tokens, c.pos), 29int,
{
    let callee = primary(tokens, c);
    chain(callee, postfix_rest(tokens, c.after(callee), callee.tree))
}

/// The unary operator that a token of this kind is, if any.
pub open spec fn unary_op(kind: nat) -> Option<UnaryExprOp> {
    if kind == TokenType::Bang.kind() {
        Some(UnaryExprOp::Not)
    } else if kind == TokenType::Minus.kind() {
        Some(UnaryExprOp::Minus)
    } else {
        None
    }
}

/// A unary operator at the cursor and its operand, given what the operand
/// yields.
#[verifier::opaque]
pub open spec fn unary_node(tokens: Seq<Token>, c: Cursor, right: Parsed) -> Parsed {
    if !right.ok {
        failed(1 + right.used, right.minted, right.errors)
    } else {
        parsed(
            1 + right.used,
            right.minted + 1,
            right.errors,
            Tree {
                tag: Tag::Unary(unary_op(kind_at(tokens, c.pos))->0),
                id: (c.id + right.minted) as nat,
                tokens: seq![tokens[c.pos]@],
                kids: seq![right.tree],
            },
        )
    }
}

/// `unary := ("!" | "-") unary | call`
pub open spec fn unary(tokens: Seq<Token>, c: Cursor) -> Parsed
    decreases remaining(tokens, c.pos), 30int,
{
    if !at_end(tokens, c.pos) && unary_op(kind_at(tokens, c.pos)) is Some {
        unary_node(tokens, c, unary(tokens, c.skip(1)))
    } else {
        postfix(tokens, c)
    }
}

/// The binary operator that a token of this kind is at a level of
/// precedence: 0 for equality, 1 for comparison, 2 for terms, 3 for factors.
pub open spec fn binary_op(level: nat, kind: nat) -> Option<BinaryExprOp> {
    if level == 0 && kind == TokenType::BangEqual.kind() {
        Some(BinaryExprOp::NotEqual)
    } else if level == 0 && kind == TokenType::EqualEqual.kind() {
        Some(BinaryExprOp::EqualEqual)
    } else if level == 1 && kind == TokenType::Greater.kind() {
        Some(BinaryExprOp::Greater)
    } else if level == 1 && kind == TokenType::GreaterEqual.kind() {
        Some(BinaryExprOp::GreaterEqual)
    } else if level == 1 && kind == TokenType::Less.kind() {
        Some(BinaryExprOp::Less)
    } else if level == 1 && kind == TokenType::LessEqual.kind() {
        Some(BinaryExprOp::LessEqual)
    } else if level == 2 && kind == TokenType::Minus.kind() {
        Some(BinaryExprOp::Minus)
    } else if level == 2 && kind == TokenType::Plus.kind() {
        Some(BinaryExprOp::Plus)
    } else if level == 3 && kind == TokenType::Slash.kind() {
        Some(BinaryExprOp::Divide)
    } else if level == 3 && kind == TokenType::Star.kind() {
        Some(BinaryExprOp::Times)
    } else {
        None
    }
}

/// An operator at the cursor between `left` and a right operand, given what
/// the right operand yields; `tag` is the node's kind.
#[verifier::opaque]
pub open spec fn infix_node(tokens: Seq<Token>, c: Cursor, left: Tree, right: Parsed, tag: Tag) -> Parsed {
    if !right.ok {
        failed(1 + right.used, right.minted, right.errors)
    } else {
        parsed(
            1 + right.used,
            right.minted + 1,
            right.errors,
            Tree {
                tag,
                id: (c.id + right.minted) as nat,
                tokens: seq![tokens[c.pos]@],
                kids: seq![left, right.tree],
            },
        )
    }
}

/// An operand of the binary operators of a level: an expression of the next
/// level, or a unary expression at the last level.
#[verifier::opaque]
pub open spec fn operand(tokens: Seq<Token>, c: Cursor, level: nat) -> Parsed
    decreases remaining(tokens, c.pos), 39 - 2 * capped(level, 3),
{
    if level < 3 {
        binary(tokens, c, level + 1)
    } else {
        unary(tokens, c)
    }
}

/// A left-associative chain of binary operators of one level:
/// `equality := comparison (("!=" | "==") comparison)*` and so on down to
/// `factor := unary (("/" | "*") unary)*`.
pub open spec fn binary(tokens: Seq<Token>, c: Cursor, level: nat) -> Parsed
    decreases remaining(tokens, c.pos), 40 - 2 * capped(level, 3),
{
    if level > 3 {
        failed(0, 0, c.errors)
    } else {
        let left = operand(tokens, c, level);
        chain(left, binary_rest(tokens, c.after(left), left.tree, level))
    }
}

/// The operators and operands that follow `left` at a level.
pub open spec fn binary_rest(tokens: Seq<Token>, c: Cursor, left: Tree, level: nat) -> Parsed
    decreases remaining(tokens, c.pos), 32 - 2 * capped(level, 3),
{
    if level <= 3 && !at_end(tokens, c.pos) && binary_op(level, kind_at(tokens, c.pos)) is Some {
        let right = operand(tokens, c.skip(1), level);
        let node = infix_node(
            tokens,
            c,
            left,
            right,
            Tag::Binary(binary_op(level, kind_at(tokens, c.pos))->0),
        );
        chain(node, binary_rest(tokens, c.skip(1).after(right).mint(1), node.tree, level))
    } else {
        parsed(0, 0, c.errors, left)
    }
}

/// The kind of the operator of a level of logical operators: 0 for `or`, 1
/// for `and`.
pub open spec fn logical_kind(level: nat) -> nat {
    if level == 0 {
        TokenType::Or.kind()
    } else {
        TokenType::And.kind()
    }
}

/// An operand of a logical operator: an `and` chain under `or`, an
/// equality under `and`.
#[verifier::opaque]
pub open spec fn logical_operand(tokens: Seq<Token>, c: Cursor, level: nat) -> Parsed
    decreases remaining(tokens, c.pos), 49 - 2 * capped(level, 1),
{
    if level == 0 {
        logical(tokens, c, 1)
    } else {
        binary(tokens, c, 0)
    }
}

/// `logic_or := logic_and ("or" logic_and)*` at level 0 and
/// `logic_and := equality ("and" equality)*` at level 1.
pub open spec fn logical(tokens: Seq<Token>, c: Cursor, level: nat) -> Parsed
    decreases remaining(tokens, c.pos), 50 - 2 * capped(level, 1),
{
    if level > 1 {
        failed(0, 0, c.errors)
    } else {
        let left = logical_operand(tokens, c, level);
        chain(left, logical_rest(tokens, c.after(left), left.tree, level))
    }
}

/// The operators and operands that follow `left` at a level.
pub open spec fn logical_rest(tokens: Seq<Token>, c: Cursor, left: Tree, level: nat) -> Parsed
    decreases remaining(tokens, c.pos), 42 - 2 * capped(level, 1),
{
    if level <= 1 && check_at(tokens, c.pos, logical_kind(level)) {
        let right = logical_operand(tokens, c.skip(1), level);
        let node = infix_node(tokens, c, left, right, Tag::Logical);
        chain(node, logical_rest(tokens, c.skip(1).after(right).mint(1), node.tree, level))
    } else {
        parsed(0, 0, c.errors, left)
    }
}

/// An assignment at the cursor, given what its target and, after the `=`,
/// its value yield: the target must be a variable or a property access.
#[verifier::opaque]
pub open spec fn assign_node(tokens: Seq<Token>, c: Cursor, target: Parsed, value: Parsed) -> Parsed {
    let used = target.used + 1 + value.used;
    let minted = target.minted + value.minted;
    if !value.ok {
        failed(used, minted, value.errors)
    } else if target.tree.tag is Variable {
        parsed(
            used,
            minted + 1,
            value.errors,
            Tree {
                tag: Tag::Assignment,
                id: (c.id + minted) as nat,
                tokens: target.tree.tokens,
                kids: seq![value.tree],
            },
        )
    } else if target.tree.tag is Get {
        parsed(
            used,
            minted + 1,
            value.errors,
            Tree {
                tag: Tag::SetProperty,
                id: (c.id + minted) as nat,
                tokens: target.tree.tokens,
                kids: seq![target.tree.kids[0], value.tree],
            },
        )
    } else {
        failed(
            used,
            minted,
            value.errors.push(
                diagnostic(tokens[c.pos + target.used], "Invalid assignment target."@),
            ),
        )
    }
}

/// `assignment := (call ".")? IDENT "=" assignment | logic_or`.  The left
/// side is parsed as an expression; after `=` it must be a variable or a
/// property access.
pub open spec fn assignment(tokens: Seq<Token>, c: Cursor) -> Parsed
    decreases remaining(tokens, c.pos), 60int,
{
    let target = logical(tokens, c, 0);
    if target.ok && is_kind(tokens, c.pos + target.used, TokenType::Equal) {
        assign_node(tokens, c, target, assignment(tokens, c.after(target).skip(1)))
    } else {
        target
    }
}

/// `expression := assignment`
#[verifier::opaque]
pub open spec fn expression(tokens: Seq<Token>, c: Cursor) -> Parsed
    decreases remaining(tokens, c.pos), 61int,
{
    assignment(tokens, c)
}

/// An expression and its `;` as a statement of kind `tag`, given what the
/// expression at the cursor yields; `message` is reported if the `;` is
/// missing.
#[verifier::opaque]
pub open spec fn ended(tokens: Seq<Token>, c: Cursor, e: Parsed, tag: Tag, message: Seq<char>) -> Parsed {
    let end = c.pos + e.used;
    if !e.ok {
        failed(e.used, e.minted, e.errors)
    } else if is_kind(tokens, end, TokenType::Semicolon) {
        parsed(
            e.used + 1,
            e.minted,
            e.errors,
            Tree { tag, id: 0, tokens: Seq::empty(), kids: seq![e.tree] },
        )
    } else {
        failed(e.used, e.minted, c.after(e).complain(tokens[end], message))
    }
}

/// `exprStmt := expression ";"`
pub open spec fn expression_statement(tokens: Seq<Token>, c: Cursor) -> Parsed {
    ended(
        tokens,
        c,
        expression(tokens, c),
        Tag::Expression,
        "Expect ';' after expression."@,
    )
}

/// `printStmt := "print" expression ";"`, after the keyword.
pub open spec fn print_statement(tokens: Seq<Token>, c: Cursor) -> Parsed {
    ended(tokens, c, expression(tokens, c), Tag::Print, "Expect ';' after value."@)
}

/// A `return` with a value, given what the value at the cursor yields.
#[verifier::opaque]
pub open spec fn return_node(tokens: Seq<Token>, c: Cursor, e: Parsed) -> Parsed {
    let end = c.pos + e.used;
    if !e.ok {
        failed(e.used, e.minted, e.errors)
    } else if is_kind(tokens, end, TokenType::Semicolon) {
        parsed(
            e.used + 1,
            e.minted,
            e.errors,
            Tree { tag: Tag::Return, id: 0, tokens: seq![tokens[c.pos - 1]@], kids: seq![e.tree] },
        )
    } else {
        failed(
            e.used,
            e.minted,
            c.after(e).complain(tokens[end], "Expect ';' after return value."@),
        )
    }
}

/// `returnStmt := "return" expression? ";"`, after the keyword.
pub open spec fn return_statement(tokens: Seq<Token>, c: Cursor) -> Parsed {
    if is_kind(tokens, c.pos, TokenType::Semicolon) {
        parsed(
            1,
            0,
            c.errors,
            Tree {
                tag: Tag::Return,
                id: 0,
                tokens: seq![tokens[c.pos - 1]@],
                kids: Seq::empty(),
            },
        )
    } else {
        return_node(tokens, c, expression(tokens, c))
    }
}

/// A variable declaration whose name is at the cursor and whose
/// initializer, if it has one, yields `init`.
#[verifier::opaque]
pub open spec fn var_node(tokens: Seq<Token>, c: Cursor, has_init: bool, init: Parsed) -> Parsed {
    let used: nat = if has_init {
        2 + init.used
    } else {
        1
    };
    let minted: nat = if has_init {
        init.minted
    } else {
        0
    };
    let errors = if has_init {
        init.errors
    } else {
        c.errors
    };
    let end = c.pos + used;
    if has_init && !init.ok {
        failed(used, minted, errors)
    } else if is_kind(tokens, end, TokenType::Semicolon) {
        parsed(
            used + 1,
            minted,
            errors,
            Tree {
                tag: Tag::Var,
                id: 0,
                tokens: seq![tokens[c.pos]@],
                kids: if has_init {
                    seq![init.tree]
                } else {
                    Seq::empty()
                },
            },
        )
    } else {
        failed(
            used,
            minted,
            errors.push(diagnostic(tokens[end], "Expect ';' after variable declaration."@)),
        )
    }
}

/// `varDecl := "var" IDENT ("=" expression)? ";"`, after the keyword.
pub open spec fn var_declaration(tokens: Seq<Token>, c: Cursor) -> Parsed {
    if !is_kind(tokens, c.pos, TokenType::Identifier) {
        failed(0, 0, c.complain(tokens[c.pos], "Expect variable name."@))
    } else if is_kind(tokens, c.pos + 1, TokenType::Equal) {
        var_node(tokens, c, true, expression(tokens, c.skip(2)))
    } else {
        var_node(tokens, c, false, failed(0, 0, c.errors))
    }
}

/// The `)` of a parenthesised condition, given what the condition after
/// the `(` at the cursor yields; `message` is reported if the `)` is
/// missing.  The tree is that of the condition.
#[verifier::opaque]
pub open spec fn closed(tokens: Seq<Token>, c: Cursor, e: Parsed, message: Seq<char>) -> Parsed {
    let end = c.pos + 1 + e.used;
    if !e.ok {
        failed(1 + e.used, e.minted, e.errors)
    } else if is_kind(tokens, end, TokenType::RightParen) {
        parsed(2 + e.used, e.minted, e.errors, e.tree)
    } else {
        failed(1 + e.used, e.minted, e.errors.push(diagnostic(tokens[end], message)))
    }
}

/// `"(" expression ")"`: the condition of an `if` or a `while`.
pub open spec fn condition(
    tokens: Seq<Token>,
    c: Cursor,
    open_message: Seq<char>,
    close_message: Seq<char>,
) -> Parsed {
    if is_kind(tokens, c.pos, TokenType::LeftParen) {
        closed(tokens, c, expression(tokens, c.skip(1)), close_message)
    } else {
        failed(0, 0, c.complain(tokens[c.pos], open_message))
    }
}

/// An `if` statement, given what its condition, its then-branch and, if it
/// has one, its else-branch yield.
#[verifier::opaque]
pub open spec fn if_node(head: Parsed, then: Parsed, has_else: bool, otherwise: Parsed) -> Parsed {
    if !then.ok {
        failed(head.used + then.used, head.minted + then.minted, then.errors)
    } else if !has_else {
        parsed(
            head.used + then.used,
            head.minted + then.minted,
            then.errors,
            Tree {
                tag: Tag::If,
                id: 0,
                tokens: Seq::empty(),
                kids: seq![head.tree, then.tree],
            },
        )
    } else if !otherwise.ok {
        failed(
            head.used + then.used + 1 + otherwise.used,
            head.minted + then.minted + otherwise.minted,
            otherwise.errors,
        )
    } else {
        parsed(
            head.used + then.used + 1 + otherwise.used,
            head.minted + then.minted + otherwise.minted,
            otherwise.errors,
            Tree {
                tag: Tag::If,
                id: 0,
                tokens: Seq::empty(),
                kids: seq![head.tree, then.tree, otherwise.tree],
            },
        )
    }
}

/// `ifStmt := "if" "(" expression ")" statement ("else" statement)?`, after
/// the keyword.
pub open spec fn if_statement(tokens: Seq<Token>, c: Cursor) -> Parsed
    decreases remaining(tokens, c.pos), 200int,
{
    let head = condition(
        tokens,
        c,
        "Expect '(' after 'if'."@,
        "Expect ')' after if condition."@,
    );
    if !head.ok {
        head
    } else {
        let then = statement(tokens, c.after(head));
        let after = c.after(head).after(then);
        if then.ok && is_kind(tokens, after.pos, TokenType::Else) {
            if_node(head, then, true, statement(tokens, after.skip(1)))
        } else {
            if_node(head, then, false, then)
        }
    }
}

/// A `while` statement, given what its condition and its body yield.
#[verifier::opaque]
pub open spec fn while_node(head: Parsed, body: Parsed) -> Parsed {
    if !body.ok {
        failed(head.used + body.used, head.minted + body.minted, body.errors)
    } else {
        parsed(
            head.used + body.used,
            head.minted + body.minted,
            body.errors,
            Tree {
                tag: Tag::While,
                id: 0,
                tokens: Seq::empty(),
                kids: seq![head.tree, body.tree],
            },
        )
    }
}

/// `whileStmt := "while" "(" expression ")" statement`, after the keyword.
pub open spec fn while_statement(tokens: Seq<Token>, c: Cursor) -> Parsed
    decreases remaining(tokens, c.pos), 200int,
{
    let head = condition(
        tokens,
        c,
        "Expect '(' after 'while'."@,
        "Expect ')' after while condition."@,
    );
    if !head.ok {
        head
    } else {
        while_node(head, statement(tokens, c.after(head)))
    }
}

/// The first clause of a `for`, at the cursor: `;`, a variable declaration,
/// or an expression statement.  It yields no tree or one.
pub open spec fn for_initializer(tokens: Seq<Token>, c: Cursor) -> ParsedList {
    if is_kind(tokens, c.pos, TokenType::Semicolon) {
        parsed_list(1, 0, c.errors, Seq::empty())
    } else if is_kind(tokens, c.pos, TokenType::Var) {
        one_of(after_token(var_declaration(tokens, c.skip(1))))
    } else {
        one_of(expression_statement(tokens, c))
    }
}

/// A production as a list of one tree.
pub open spec fn one_of(p: Parsed) -> ParsedList {
    ParsedList {
        used: p.used,
        minted: p.minted,
        errors: p.errors,
        ok: p.ok,
        trees: if p.ok {
            seq![p.tree]
        } else {
            Seq::empty()
        },
    }
}

/// An optional expression and the token of kind `end` that closes it, given
/// what the expression yields if one stands at the cursor; `message` is
/// reported if the closing token is missing.  It yields no tree or one.
#[verifier::opaque]
pub open spec fn clause(
    tokens: Seq<Token>,
    c: Cursor,
    present: bool,
    e: Parsed,
    end: nat,
    message: Seq<char>,
) -> ParsedList {
    let used: nat = if present {
        e.used
    } else {
        0
    };
    let minted: nat = if present {
        e.minted
    } else {
        0
    };
    let errors = if present {
        e.errors
    } else {
        c.errors
    };
    if present && !e.ok {
        failed_list(used, minted, errors)
    } else if check_at(tokens, c.pos + used, end) {
        parsed_list(
            used + 1,
            minted,
            errors,
            if present {
                seq![e.tree]
            } else {
                Seq::empty()
            },
        )
    } else {
        failed_list(used, minted, errors.push(diagnostic(tokens[c.pos + used], message)))
    }
}

/// An optional expression at the cursor and the token of kind `end`
/// that closes it: the expression is there unless the closing token stands
/// at the cursor.
pub open spec fn optional(tokens: Seq<Token>, c: Cursor, end: nat, message: Seq<char>) -> ParsedList {
    let present = !check_at(tokens, c.pos, end);
    clause(
        tokens,
        c,
        present,
        if present {
            expression(tokens, c)
        } else {
            failed(0, 0, c.errors)
        },
        end,
        message,
    )
}

/// The second clause of a `for` and its `;`.
pub open spec fn for_condition(tokens: Seq<Token>, c: Cursor) -> ParsedList {
    optional(tokens, c, TokenType::Semicolon.kind(), "Expect ';' after loop condition."@)
}

/// The third clause of a `for` and the `)`.
pub open spec fn for_increment(tokens: Seq<Token>, c: Cursor) -> ParsedList {
    optional(tokens, c, TokenType::RightParen.kind(), "Expect ')' after for clauses."@)
}

/// The token of the literal `true` that stands for a missing condition.
pub open spec fn true_token() -> TokenView {
    TokenView { kind: TokenType::True.kind(), payload: Seq::empty(), lexeme: "true"@, line: 0 }
}

/// The loop that a `for` statement stands for:
/// `{ initializer; while (condition) { body; increment; } }`, without the
/// blocks that a missing initializer or increment would leave with one
/// statement, and with the literal `true`, which gets the identity `id`,
/// for a missing condition.
pub open spec fn desugared(
    id: nat,
    init: Seq<Tree>,
    cond: Seq<Tree>,
    incr: Seq<Tree>,
    body: Tree,
) -> Tree {
    let stepped = if incr.len() > 0 {
        Tree {
            tag: Tag::Block,
            id: 0,
            tokens: Seq::empty(),
            kids: seq![
                body,
                Tree { tag: Tag::Expression, id: 0, tokens: Seq::empty(), kids: seq![incr[0]] },
            ],
        }
    } else {
        body
    };
    let test = if cond.len() > 0 {
        cond[0]
    } else {
        Tree {
            tag: Tag::Literal(LiteralExprType::True),
            id,
            tokens: seq![true_token()],
            kids: Seq::empty(),
        }
    };
    let repeated = Tree {
        tag: Tag::While,
        id: 0,
        tokens: Seq::empty(),
        kids: seq![test, stepped],
    };
    if init.len() > 0 {
        Tree { tag: Tag::Block, id: 0, tokens: Seq::empty(), kids: seq![init[0], repeated] }
    } else {
        repeated
    }
}

/// A `for` statement at the cursor, given what its three clauses and its
/// body yield.
#[verifier::opaque]
pub open spec fn for_node(
    c: Cursor,
    init: ParsedList,
    cond: ParsedList,
    incr: ParsedList,
    body: Parsed,
) -> Parsed {
    let used = 1 + init.used + cond.used + incr.used + body.used;
    let minted = init.minted + cond.minted + incr.minted + body.minted;
    if !body.ok {
        failed(used, minted, body.errors)
    } else if cond.trees.len() > 0 {
        parsed(
            used,
            minted,
            body.errors,
            desugared(0, init.trees, cond.trees, incr.trees, body.tree),
        )
    } else {
        parsed(
            used,
            minted + 1,
            body.errors,
            desugared((c.id + minted) as nat, init.trees, cond.trees, incr.trees, body.tree),
        )
    }
}

/// What a failed clause of a `for` leaves of the statement: `before` tokens
/// and identities went before the clause.
pub open spec fn cut_short(before_used: nat, before_minted: nat, p: ParsedList) -> Parsed {
    failed(before_used + p.used, before_minted + p.minted, p.errors)
}

/// `forStmt := "for" "(" (varDecl | exprStmt | ";") expression? ";"
/// expression? ")" statement`, after the keyword.
pub open spec fn for_statement(tokens: Seq<Token>, c: Cursor) -> Parsed
    decreases remaining(tokens, c.pos), 200int,
{
    if !is_kind(tokens, c.pos, TokenType::LeftParen) {
        failed(0, 0, c.complain(tokens[c.pos], "Expect '(' after 'for'."@))
    } else {
        let init = for_initializer(tokens, c.skip(1));
        let c1 = c.skip(1).after_list(init);
        let cond = for_condition(tokens, c1);
        let c2 = c1.after_list(cond);
        let incr = for_increment(tokens, c2);
        let c3 = c2.after_list(incr);
        if !init.ok {
            cut_short(1, 0, init)
        } else if !cond.ok {
            cut_short(1 + init.used, init.minted, cond)
        } else if !incr.ok {
            cut_short(1 + init.used + cond.used, init.minted + cond.minted, incr)
        } else {
            for_node(c, init, cond, incr, statement(tokens, c3))
        }
    }
}

/// The `}` of a block, given what the declarations after the `{` yield.
#[verifier::opaque]
pub open spec fn block_end(tokens: Seq<Token>, c: Cursor, items: ParsedList, message: Seq<char>) -> ParsedList {
    let end = c.pos + items.used;
    if !items.ok {
        failed_list(items.used, items.minted, items.errors)
    } else if is_kind(tokens, end, TokenType::RightBrace) {
        parsed_list(items.used + 1, items.minted, items.errors, items.trees)
    } else {
        failed_list(
            items.used,
            items.minted,
            items.errors.push(diagnostic(tokens[end], message)),
        )
    }
}

/// `block := "{" declaration* "}"`, after the `{`.
pub open spec fn block(tokens: Seq<Token>, c: Cursor) -> ParsedList
    decreases remaining(tokens, c.pos), 200int,
{
    block_end(tokens, c, items(tokens, c, true), "Expect '}' after block."@)
}

/// A declaration and those after it.
pub open spec fn item_and(first: ParsedList, rest: ParsedList) -> ParsedList {
    ParsedList {
        used: first.used + rest.used,
        minted: first.minted + rest.minted,
        errors: rest.errors,
        ok: rest.ok,
        trees: first.trees + rest.trees,
    }
}

/// `declaration*`: up to the end of the tokens, and in a block also up to
/// a `}`.  Each declaration yields one statement, or none after an error.
pub open spec fn items(tokens: Seq<Token>, c: Cursor, in_block: bool) -> ParsedList
    decreases remaining(tokens, c.pos), 190int,
{
    if at_end(tokens, c.pos) || (in_block && is_kind(tokens, c.pos, TokenType::RightBrace)) {
        parsed_list(0, 0, c.errors, Seq::empty())
    } else {
        let first = declaration(tokens, c);
        if first.used > 0 {
            item_and(first, items(tokens, c.after_list(first), in_block))
        } else {
            first
        }
    }
}

/// What the name of a parameter list yields: the tokens read, the
/// diagnostics, and the names.
pub struct ParsedNames {
    pub used: nat,
    pub errors: Seq<Seq<char>>,
    pub ok: bool,
    pub names: Seq<TokenView>,
}

/// One parameter and those after it; `count` parameters came before.  Each
/// parameter beyond the limit is reported, and parsing goes on.
pub open spec fn more_parameters(tokens: Seq<Token>, c: Cursor, count: nat) -> ParsedNames
    decreases remaining(tokens, c.pos),
{
    let start = limit_checked(tokens, c, count, "Can't have more than 255 parameters."@);
    if !is_kind(tokens, c.pos, TokenType::Identifier) {
        ParsedNames {
            used: 0,
            errors: start.complain(tokens[c.pos], "Expect parameter name."@),
            ok: false,
            names: Seq::empty(),
        }
    } else if is_kind(tokens, c.pos + 1, TokenType::Comma) {
        let rest = more_parameters(tokens, start.skip(2), count + 1);
        ParsedNames {
            used: 2 + rest.used,
            errors: rest.errors,
            ok: rest.ok,
            names: seq![tokens[c.pos]@] + rest.names,
        }
    } else {
        ParsedNames { used: 1, errors: start.errors, ok: true, names: seq![tokens[c.pos]@] }
    }
}

/// The parameters of a function after its `(`, up to but without the `)`.
pub open spec fn parameters(tokens: Seq<Token>, c: Cursor) -> ParsedNames {
    if is_kind(tokens, c.pos, TokenType::RightParen) {
        ParsedNames { used: 0, errors: c.errors, ok: true, names: Seq::empty() }
    } else {
        more_parameters(tokens, c, 0)
    }
}

/// A diagnostic message that names the kind of declaration: `head`, the
/// kind, and `tail`.
pub open spec fn expecting(head: Seq<char>, kind: Seq<char>, tail: Seq<char>) -> Seq<char> {
    head + kind + tail
}

/// The header of a function up to the `{` of its body, with the name at the
/// cursor, given what the parameters yield; `kind` says in the diagnostics
/// what is declared.
#[verifier::opaque]
pub open spec fn function_head(tokens: Seq<Token>, c: Cursor, kind: Seq<char>, names: ParsedNames) -> ParsedNames {
    let close = c.pos + 2 + names.used;
    if !names.ok {
        ParsedNames { used: 2 + names.used, ..names }
    } else if !is_kind(tokens, close, TokenType::RightParen) {
        ParsedNames {
            used: 2 + names.used,
            errors: names.errors.push(diagnostic(tokens[close], "Expect ')' after parameters."@)),
            ok: false,
            names: Seq::empty(),
        }
    } else if !is_kind(tokens, close + 1, TokenType::LeftBrace) {
        ParsedNames {
            used: 3 + names.used,
            errors: names.errors.push(
                diagnostic(tokens[close + 1], expecting("Expect '{' before "@, kind, " body."@)),
            ),
            ok: false,
            names: Seq::empty(),
        }
    } else {
        ParsedNames {
            used: 4 + names.used,
            errors: names.errors,
            ok: true,
            names: seq![tokens[c.pos]@] + names.names,
        }
    }
}

/// A function declaration, given what its header and its body yield.
#[verifier::opaque]
pub open spec fn function_node(head: ParsedNames, body: ParsedList) -> Parsed {
    if !body.ok {
        failed(head.used + body.used, body.minted, body.errors)
    } else {
        parsed(
            head.used + body.used,
            body.minted,
            body.errors,
            Tree { tag: Tag::Function, id: 0, tokens: head.names, kids: body.trees },
        )
    }
}

/// `function := IDENT "(" parameters? ")" block`; `kind` says in the
/// diagnostics what is declared.
pub open spec fn function(tokens: Seq<Token>, c: Cursor, kind: Seq<char>) -> Parsed
    decreases remaining(tokens, c.pos), 210int,
{
    if !is_kind(tokens, c.pos, TokenType::Identifier) {
        failed(0, 0, c.complain(tokens[c.pos], expecting("Expect "@, kind, " name."@)))
    } else if !is_kind(tokens, c.pos + 1, TokenType::LeftParen) {
        failed(
            1,
            0,
            c.complain(tokens[c.pos + 1], expecting("Expect '(' after "@, kind, " name."@)),
        )
    } else {
        let head = function_head(tokens, c, kind, parameters(tokens, c.skip(2)));
        if !head.ok {
            failed(head.used, 0, head.errors)
        } else {
            function_node(
                head,
                block(tokens, Cursor { pos: c.pos + head.used, id: c.id, errors: head.errors }),
            )
        }
    }
}

/// The methods of a class after its `{`, up to but without the `}`.
pub open spec fn methods(tokens: Seq<Token>, c: Cursor) -> ParsedList
    decreases remaining(tokens, c.pos), 220int,
{
    if at_end(tokens, c.pos) || is_kind(tokens, c.pos, TokenType::RightBrace) {
        parsed_list(0, 0, c.errors, Seq::empty())
    } else {
        let first = function(tokens, c, "method"@);
        if first.ok && first.used > 0 {
            let rest = methods(tokens, c.after(first));
            ParsedList {
                used: first.used + rest.used,
                minted: first.minted + rest.minted,
                errors: rest.errors,
                ok: rest.ok,
                trees: seq![first.tree] + rest.trees,
            }
        } else {
            failed_list(first.used, first.minted, first.errors)
        }
    }
}

/// A class declaration with its name at the cursor, given what its methods
/// and their `}` yield.
#[verifier::opaque]
pub open spec fn class_node(tokens: Seq<Token>, c: Cursor, body: ParsedList) -> Parsed {
    if !body.ok {
        failed(2 + body.used, body.minted, body.errors)
    } else {
        parsed(
            2 + body.used,
            body.minted,
            body.errors,
            Tree { tag: Tag::Class, id: 0, tokens: seq![tokens[c.pos]@], kids: body.trees },
        )
    }
}

/// `classDecl := "class" IDENT "{" function* "}"`, after the keyword.
pub open spec fn class_declaration(tokens: Seq<Token>, c: Cursor) -> Parsed
    decreases remaining(tokens, c.pos), 230int,
{
    if !is_kind(tokens, c.pos, TokenType::Identifier) {
        failed(0, 0, c.complain(tokens[c.pos], "Expect class name."@))
    } else if !is_kind(tokens, c.pos + 1, TokenType::LeftBrace) {
        failed(1, 0, c.complain(tokens[c.pos + 1], "Expect '{' before class body."@))
    } else {
        class_node(
            tokens,
            c,
            block_end(
                tokens,
                c.skip(2),
                methods(tokens, c.skip(2)),
                "Expect '}' after class body."@,
            ),
        )
    }
}

/// A block statement, given what the block after the `{` yields.
pub open spec fn block_node(body: ParsedList) -> Parsed {
    Parsed {
        used: body.used,
        minted: body.minted,
        errors: body.errors,
        ok: body.ok,
        tree: Tree { tag: Tag::Block, id: 0, tokens: Seq::empty(), kids: body.trees },
    }
}

/// `statement := exprStmt | forStmt | ifStmt | printStmt | returnStmt
/// | whileStmt | block`
#[verifier::opaque]
pub open spec fn statement(tokens: Seq<Token>, c: Cursor) -> Parsed
    decreases remaining(tokens, c.pos), 90int,
{
    if is_kind(tokens, c.pos, TokenType::If) {
        after_token(if_statement(tokens, c.skip(1)))
    } else if is_kind(tokens, c.pos, TokenType::While) {
        after_token(while_statement(tokens, c.skip(1)))
    } else if is_kind(tokens, c.pos, TokenType::For) {
        after_token(for_statement(tokens, c.skip(1)))
    } else if is_kind(tokens, c.pos, TokenType::Print) {
        after_token(print_statement(tokens, c.skip(1)))
    } else if is_kind(tokens, c.pos, TokenType::Return) {
        after_token(return_statement(tokens, c.skip(1)))
    } else if is_kind(tokens, c.pos, TokenType::LeftBrace) {
        after_token(block_node(block(tokens, c.skip(1))))
    } else {
        expression_statement(tokens, c)
    }
}

/// `declaration := classDecl | funDecl | varDecl | statement`, without
/// recovery.
pub open spec fn plain_declaration(tokens: Seq<Token>, c: Cursor) -> Parsed
    decreases remaining(tokens, c.pos), 94int,
{
    if is_kind(tokens, c.pos, TokenType::Class) {
        after_token(class_declaration(tokens, c.skip(1)))
    } else if is_kind(tokens, c.pos, TokenType::Fun) {
        after_token(function(tokens, c.skip(1), "function"@))
    } else if is_kind(tokens, c.pos, TokenType::Var) {
        after_token(var_declaration(tokens, c.skip(1)))
    } else {
        statement(tokens, c)
    }
}

/// A declaration with recovery, given what the declaration at the cursor
/// yields: after an error the tokens up to the start of the next statement
/// are skipped, and there is no statement.
pub open spec fn recovered(tokens: Seq<Token>, c: Cursor, p: Parsed) -> ParsedList {
    if p.ok {
        parsed_list(p.used, p.minted, p.errors, seq![p.tree])
    } else {
        parsed_list(
            (resume_at(tokens, c.pos + p.used) - c.pos) as nat,
            p.minted,
            p.errors,
            Seq::empty(),
        )
    }
}

/// A declaration with recovery: one statement, or none after an error.
#[verifier::opaque]
pub open spec fn declaration(tokens: Seq<Token>, c: Cursor) -> ParsedList
    decreases remaining(tokens, c.pos), 95int,
{
    recovered(tokens, c, plain_declaration(tokens, c))
}

/// `program := declaration* EOF`: the statements of the whole token
/// sequence.
pub open spec fn program(tokens: Seq<Token>, c: Cursor) -> ParsedList {
    items(tokens, c, false)
}

/// What [`statement`] is.
pub proof fn lemma_statement(tokens: Seq<Token>, c: Cursor)
    ensures
        statement(tokens, c) == if is_kind(tokens, c.pos, TokenType::If) {
            after_token(if_statement(tokens, c.skip(1)))
        } else if is_kind(tokens, c.pos, TokenType::While) {
            after_token(while_statement(tokens, c.skip(1)))
        } else if is_kind(tokens, c.pos, TokenType::For) {
            after_token(for_statement(tokens, c.skip(1)))
        } else if is_kind(tokens, c.pos, TokenType::Print) {
            after_token(print_statement(tokens, c.skip(1)))
        } else if is_kind(tokens, c.pos, TokenType::Return) {
            after_token(return_statement(tokens, c.skip(1)))
        } else if is_kind(tokens, c.pos, TokenType::LeftBrace) {
            after_token(block_node(block(tokens, c.skip(1))))
        } else {
            expression_statement(tokens, c)
        },
{
    reveal_with_fuel(statement, 1);
}

/// What [`declaration`] is.
pub proof fn lemma_declaration(tokens: Seq<Token>, c: Cursor)
    ensures
        declaration(tokens, c) == recovered(tokens, c, plain_declaration(tokens, c)),
{
    reveal_with_fuel(declaration, 1);
}

/// What [`finish_call`] is.
pub proof fn lemma_finish_call(tokens: Seq<Token>, c: Cursor, callee: Tree)
    ensures
        finish_call(tokens, c, callee) == call_node(tokens, c, callee, arguments(tokens, c)),
{
    reveal_with_fuel(finish_call, 1);
}

/// What [`operand`] is.
pub proof fn lemma_operand(tokens: Seq<Token>, c: Cursor, level: nat)
    ensures
        operand(tokens, c, level) == if level < 3 {
            binary(tokens, c, level + 1)
        } else {
            unary(tokens, c)
        },
{
    reveal_with_fuel(operand, 1);
}

/// What [`logical_operand`] is.
pub proof fn lemma_logical_operand(tokens: Seq<Token>, c: Cursor, level: nat)
    ensures
        logical_operand(tokens, c, level) == if level == 0 {
            logical(tokens, c, 1)
        } else {
            binary(tokens, c, 0)
        },
{
    reveal_with_fuel(logical_operand, 1);
}

/// An expression is an assignment.
pub proof fn lemma_expression(tokens: Seq<Token>, c: Cursor)
    ensures
        expression(tokens, c) == assignment(tokens, c),
{
    reveal_with_fuel(expression, 1);
}

} // verus!
