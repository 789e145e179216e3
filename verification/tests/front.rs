use lox::ast::expr::{BinaryExprOp, Expr, ExprAccept, LiteralExprType, UnaryExprOp};
use lox::ast::stmt::{Stmt, StmtAccept};
use lox::parser::Parser;
use lox::resolver::Resolver;
use lox::scanner::{keyword, Scanner};
use lox::token::Token;
use lox::token_type::TokenType;

fn scan(source: &str) -> (Vec<Token>, Vec<String>) {
    Scanner::new(source.to_string()).scan_tokens()
}

fn kinds(source: &str) -> Vec<TokenType> {
    let (tokens, errors) = scan(source);
    assert_eq!(errors, Vec::<String>::new());
    tokens.into_iter().map(|token| token.token_type).collect()
}

fn parse(source: &str) -> (Vec<Stmt>, Vec<String>) {
    let (tokens, errors) = scan(source);
    assert_eq!(errors, Vec::<String>::new());
    let mut parser = Parser::new(tokens);
    let statements = parser.parse();
    (statements, parser.take_errors())
}

fn parse_clean(source: &str) -> Vec<Stmt> {
    let (statements, errors) = parse(source);
    assert_eq!(errors, Vec::<String>::new());
    statements
}

fn expression(source: &str) -> Expr {
    let mut statements = parse_clean(source);
    assert_eq!(statements.len(), 1);
    match statements.remove(0) {
        Stmt::Expression(statement) => statement.expr,
        other => panic!("no expression statement: {:?}", other),
    }
}

/// The expression in prefix notation, without tokens and identities.
fn shape(expr: &Expr) -> String {
    match expr {
        Expr::Literal(e) => e.token.lexeme.clone(),
        Expr::Logical(e) => {
            format!("({} {} {})", e.operator.lexeme, shape(&e.left), shape(&e.right))
        },
        Expr::Unary(e) => format!("({} {})", e.op.1.lexeme, shape(&e.right)),
        Expr::Binary(e) => format!("({} {} {})", e.op.1.lexeme, shape(&e.left), shape(&e.right)),
        Expr::Call(e) => {
            let mut text = format!("(call {}", shape(&e.callee));
            for argument in &e.arguments {
                text.push(' ');
                text.push_str(&shape(argument));
            }
            text.push(')');
            text
        },
        Expr::Grouping(e) => format!("(group {})", shape(&e.expr)),
        Expr::Variable(e) => e.name.lexeme.clone(),
        Expr::Assignment(e) => format!("(= {} {})", e.name.lexeme, shape(&e.value)),
        Expr::Get(e) => format!("(. {} {})", shape(&e.object), e.name.lexeme),
        Expr::SetProperty(e) => {
            format!("(.= {} {} {})", shape(&e.object), e.name.lexeme, shape(&e.value))
        },
        Expr::This(_) => "this".to_string(),
    }
}

fn resolve(source: &str) -> (Vec<Stmt>, Vec<(usize, usize)>, Vec<String>) {
    let statements = parse_clean(source);
    let mut resolver = Resolver::new();
    resolver.resolve(&statements);
    let resolved = resolver.resolved().clone();
    let errors = resolver.errors().clone();
    (statements, resolved, errors)
}

#[test]
fn the_empty_source_is_one_eof_token() {
    let (tokens, errors) = scan("");
    assert!(errors.is_empty());
    assert_eq!(tokens, vec![Token { token_type: TokenType::EOF, lexeme: String::new(), line: 1 }]);
}

#[test]
fn punctuation_and_operators() {
    assert_eq!(kinds("(){},.-+;/*"), vec![
        TokenType::LeftParen, TokenType::RightParen, TokenType::LeftBrace, TokenType::RightBrace,
        TokenType::Comma, TokenType::Dot, TokenType::Minus, TokenType::Plus, TokenType::Semicolon,
        TokenType::Slash, TokenType::Star, TokenType::EOF,
    ]);
    assert_eq!(kinds("! != = == > >= < <="), vec![
        TokenType::Bang, TokenType::BangEqual, TokenType::Equal, TokenType::EqualEqual,
        TokenType::Greater, TokenType::GreaterEqual, TokenType::Less, TokenType::LessEqual,
        TokenType::EOF,
    ]);
    assert_eq!(kinds("!==<==>"), vec![
        TokenType::BangEqual, TokenType::Equal, TokenType::LessEqual, TokenType::Equal,
        TokenType::Greater, TokenType::EOF,
    ]);
}

#[test]
fn every_keyword_is_reserved() {
    assert_eq!(
        kinds("and class else false for fun if nil or print return super this true var while"),
        vec![
            TokenType::And, TokenType::Class, TokenType::Else, TokenType::False, TokenType::For,
            TokenType::Fun, TokenType::If, TokenType::Nil, TokenType::Or, TokenType::Print,
            TokenType::Return, TokenType::Super, TokenType::This, TokenType::True, TokenType::Var,
            TokenType::While, TokenType::EOF,
        ],
    );
    assert_eq!(keyword("while"), Some(TokenType::While));
    assert_eq!(keyword("whil"), None);
    assert_eq!(keyword("While"), None);
    assert_eq!(keyword(""), None);
}

#[test]
fn identifiers_run_over_letters_digits_and_underscores() {
    let (tokens, _) = scan("_a1 orchid b_2c classy");
    let lexemes: Vec<&str> = tokens.iter().map(|token| token.lexeme.as_str()).collect();
    assert_eq!(lexemes, vec!["_a1", "orchid", "b_2c", "classy", ""]);
    assert!(tokens[..4].iter().all(|token| token.token_type == TokenType::Identifier));
}

#[test]
fn numbers_carry_their_numeral() {
    assert_eq!(kinds("12 3.25 7. .5 1.2.3"), vec![
        TokenType::Number("12".to_string()),
        TokenType::Number("3.25".to_string()),
        TokenType::Number("7".to_string()),
        TokenType::Dot,
        TokenType::Dot,
        TokenType::Number("5".to_string()),
        TokenType::Number("1.2".to_string()),
        TokenType::Dot,
        TokenType::Number("3".to_string()),
        TokenType::EOF,
    ]);
}

#[test]
fn strings_carry_their_contents_and_keep_their_quotes_in_the_lexeme() {
    let (tokens, errors) = scan("\"two words\" \"\"");
    assert!(errors.is_empty());
    assert_eq!(tokens[0], Token {
        token_type: TokenType::String("two words".to_string()),
        lexeme: "\"two words\"".to_string(),
        line: 1,
    });
    assert_eq!(tokens[1].token_type, TokenType::String(String::new()));
}

#[test]
fn lines_are_counted_in_blanks_strings_and_comments() {
    let (tokens, errors) = scan("a // comment ( \n\nb \"x\ny\" c\n");
    assert!(errors.is_empty());
    let lines: Vec<(String, usize)> =
        tokens.into_iter().map(|token| (token.lexeme, token.line)).collect();
    assert_eq!(lines, vec![
        ("a".to_string(), 1),
        ("b".to_string(), 3),
        ("\"x\ny\"".to_string(), 4),
        ("c".to_string(), 4),
        (String::new(), 5),
    ]);
}

#[test]
fn a_comment_at_the_end_needs_no_newline() {
    assert_eq!(kinds("1 // the rest"), vec![TokenType::Number("1".to_string()), TokenType::EOF]);
    assert_eq!(kinds("//"), vec![TokenType::EOF]);
}

#[test]
fn an_unexpected_character_is_reported_and_skipped() {
    let (tokens, errors) = scan("a @ b\n#");
    assert_eq!(errors, vec![
        "[line 1] Error: Unexpected character.",
        "[line 2] Error: Unexpected character.",
    ]);
    assert_eq!(tokens.len(), 3);
}

#[test]
fn an_unterminated_string_is_reported_and_yields_no_token() {
    let (tokens, errors) = scan("a \"open\nstill open");
    assert_eq!(errors, vec!["[line 2] Error: Unterminated string."]);
    assert_eq!(tokens.len(), 2);
    assert_eq!(tokens[1].token_type, TokenType::EOF);
    assert_eq!(tokens[1].line, 2);
}

#[test]
fn text_beyond_ascii_is_scanned_by_characters() {
    let (tokens, errors) = scan("\"héllo ✓\" é");
    assert_eq!(errors, vec!["[line 1] Error: Unexpected character."]);
    assert_eq!(tokens[0].token_type, TokenType::String("héllo ✓".to_string()));
    assert_eq!(tokens.len(), 2);
}

#[test]
fn kinds_are_compared_without_what_literals_carry() {
    assert!(TokenType::Number("1".to_string()).same_kind(&TokenType::Number("2".to_string())));
    assert!(TokenType::String("a".to_string()).same_kind(&TokenType::String(String::new())));
    assert!(!TokenType::String("1".to_string()).same_kind(&TokenType::Number("1".to_string())));
    assert!(!TokenType::Less.same_kind(&TokenType::LessEqual));
    assert_eq!(TokenType::LeftParen.kind_index(), 0);
    assert_eq!(TokenType::EOF.kind_index(), 38);
}

#[test]
fn factors_bind_tighter_than_terms() {
    assert_eq!(shape(&expression("1 + 2 * 3 - 4 / 5;")), "(- (+ 1 (* 2 3)) (/ 4 5))");
}

#[test]
fn binary_operators_associate_to_the_left() {
    assert_eq!(shape(&expression("1 - 2 - 3;")), "(- (- 1 2) 3)");
    assert_eq!(shape(&expression("8 / 4 / 2;")), "(/ (/ 8 4) 2)");
    assert_eq!(shape(&expression("1 < 2 < 3;")), "(< (< 1 2) 3)");
    assert_eq!(shape(&expression("a == b != c;")), "(!= (== a b) c)");
}

#[test]
fn precedence_from_assignment_down_to_unary() {
    assert_eq!(
        shape(&expression("a = b or c and d == e < f + g * !h;")),
        "(= a (or b (and c (== d (< e (+ f (* g (! h))))))))",
    );
    assert_eq!(shape(&expression("a or b or c and d and e;")), "(or (or a b) (and (and c d) e))");
    assert_eq!(shape(&expression("!-!a;")), "(! (- (! a)))");
    assert_eq!(shape(&expression("-a.b(c);")), "(- (call (. a b) c))");
}

#[test]
fn assignment_associates_to_the_right() {
    assert_eq!(shape(&expression("a = b = c;")), "(= a (= b c))");
    assert_eq!(shape(&expression("a.b = c.d = e;")), "(.= a b (.= c d e))");
}

#[test]
fn calls_and_property_accesses_chain() {
    assert_eq!(shape(&expression("a.b.c;")), "(. (. a b) c)");
    assert_eq!(shape(&expression("f(1)(2, 3)();")), "(call (call (call f 1) 2 3))");
    assert_eq!(shape(&expression("a.b(c).d = e;")), "(.= (call (. a b) c) d e)");
    assert_eq!(shape(&expression("this.x;")), "(. this x)");
}

#[test]
fn groupings_are_kept() {
    assert_eq!(shape(&expression("(1 + 2) * 3;")), "(* (group (+ 1 2)) 3)");
    assert_eq!(shape(&expression("((a));")), "(group (group a))");
}

#[test]
fn literals_have_their_kinds() {
    let kind_of = |source: &str| match expression(source) {
        Expr::Literal(literal) => literal.literal_type,
        other => panic!("no literal: {:?}", other),
    };
    assert_eq!(kind_of("1.5;"), LiteralExprType::Number);
    assert_eq!(kind_of("\"s\";"), LiteralExprType::String);
    assert_eq!(kind_of("true;"), LiteralExprType::True);
    assert_eq!(kind_of("false;"), LiteralExprType::False);
    assert_eq!(kind_of("nil;"), LiteralExprType::Nil);
}

#[test]
fn operators_have_their_kinds() {
    let binary = |source: &str| match expression(source) {
        Expr::Binary(e) => e.op.0,
        other => panic!("no binary expression: {:?}", other),
    };
    assert_eq!(binary("a == b;"), BinaryExprOp::EqualEqual);
    assert_eq!(binary("a != b;"), BinaryExprOp::NotEqual);
    assert_eq!(binary("a < b;"), BinaryExprOp::Less);
    assert_eq!(binary("a <= b;"), BinaryExprOp::LessEqual);
    assert_eq!(binary("a > b;"), BinaryExprOp::Greater);
    assert_eq!(binary("a >= b;"), BinaryExprOp::GreaterEqual);
    assert_eq!(binary("a + b;"), BinaryExprOp::Plus);
    assert_eq!(binary("a - b;"), BinaryExprOp::Minus);
    assert_eq!(binary("a * b;"), BinaryExprOp::Times);
    assert_eq!(binary("a / b;"), BinaryExprOp::Divide);
    let unary = |source: &str| match expression(source) {
        Expr::Unary(e) => e.op.0,
        other => panic!("no unary expression: {:?}", other),
    };
    assert_eq!(unary("-a;"), UnaryExprOp::Minus);
    assert_eq!(unary("!a;"), UnaryExprOp::Not);
}

/// The identities of the nodes of an expression, each node after its parts.
fn identities(expr: &Expr, into: &mut Vec<usize>) {
    match expr {
        Expr::Literal(_) | Expr::Variable(_) | Expr::This(_) => {},
        Expr::Logical(e) => {
            identities(&e.left, into);
            identities(&e.right, into);
        },
        Expr::Unary(e) => identities(&e.right, into),
        Expr::Binary(e) => {
            identities(&e.left, into);
            identities(&e.right, into);
        },
        Expr::Call(e) => {
            identities(&e.callee, into);
            for argument in &e.arguments {
                identities(argument, into);
            }
        },
        Expr::Grouping(e) => identities(&e.expr, into),
        Expr::Assignment(e) => identities(&e.value, into),
        Expr::Get(e) => identities(&e.object, into),
        Expr::SetProperty(e) => {
            identities(&e.object, into);
            identities(&e.value, into);
        },
    }
    into.push(expr.id());
}

#[test]
fn every_expression_node_has_its_own_identity() {
    let expr = expression("f(a + 1, (b), !c).d = this.e or nil;");
    let mut found = Vec::new();
    identities(&expr, &mut found);
    let mut sorted = found.clone();
    sorted.sort();
    sorted.dedup();
    assert_eq!(sorted.len(), found.len());
    assert_eq!(found.len(), 14);
}

#[test]
fn identities_go_on_where_another_parser_stopped() {
    let (tokens, _) = scan("a + b;");
    let mut first = Parser::new(tokens);
    first.parse();
    assert_eq!(first.next_id(), 3);
    let (tokens, _) = scan("c;");
    let mut second = Parser::starting_at(tokens, first.next_id()).unwrap();
    let statements = second.parse();
    match &statements[0] {
        Stmt::Expression(statement) => assert_eq!(statement.expr.id(), 3),
        other => panic!("no expression statement: {:?}", other),
    }
    let (tokens, _) = scan("c;");
    assert!(Parser::starting_at(tokens, usize::MAX).is_none());
}

#[test]
fn statements_of_every_kind() {
    let statements = parse_clean(
        "var a = 1; var b; print a; a; { b; } if (a) b; else a; while (a) b; return; return a; \
         fun f(x, y) { return x; } class C { m() {} init(z) {} }",
    );
    let kinds: Vec<&str> = statements
        .iter()
        .map(|statement| match statement {
            Stmt::Block(_) => "block",
            Stmt::Expression(_) => "expression",
            Stmt::Print(_) => "print",
            Stmt::Variable(_) => "var",
            Stmt::If(_) => "if",
            Stmt::While(_) => "while",
            Stmt::Function(_) => "fun",
            Stmt::Return(_) => "return",
            Stmt::Class(_) => "class",
        })
        .collect();
    assert_eq!(kinds, vec![
        "var", "var", "print", "expression", "block", "if", "while", "return", "return", "fun",
        "class",
    ]);
    match &statements[9] {
        Stmt::Function(f) => {
            assert_eq!(f.name.lexeme, "f");
            let params: Vec<&str> = f.params.iter().map(|p| p.lexeme.as_str()).collect();
            assert_eq!(params, vec!["x", "y"]);
            assert_eq!(f.body.len(), 1);
        },
        other => panic!("no function: {:?}", other),
    }
    match &statements[10] {
        Stmt::Class(c) => {
            assert_eq!(c.name.lexeme, "C");
            let methods: Vec<&str> = c.methods.iter().map(|m| m.name.lexeme.as_str()).collect();
            assert_eq!(methods, vec!["m", "init"]);
        },
        other => panic!("no class: {:?}", other),
    }
}

#[test]
fn an_else_belongs_to_the_nearest_if() {
    let statements = parse_clean("if (a) if (b) c; else d;");
    match &statements[0] {
        Stmt::If(outer) => {
            assert!(outer.else_branch.is_none());
            match &*outer.then_branch {
                Stmt::If(inner) => assert!(inner.else_branch.is_some()),
                other => panic!("no inner if: {:?}", other),
            }
        },
        other => panic!("no if: {:?}", other),
    }
}

#[test]
fn a_for_loop_is_a_while_loop_in_blocks() {
    let statements = parse_clean("for (var i = 0; i < 3; i = i + 1) print i;");
    assert_eq!(statements.len(), 1);
    let outer = match &statements[0] {
        Stmt::Block(block) => &block.stmts,
        other => panic!("no block: {:?}", other),
    };
    assert_eq!(outer.len(), 2);
    assert!(matches!(outer[0], Stmt::Variable(_)));
    let repeated = match &outer[1] {
        Stmt::While(repeated) => repeated,
        other => panic!("no while: {:?}", other),
    };
    assert_eq!(shape(&repeated.condition), "(< i 3)");
    let body = match &*repeated.body {
        Stmt::Block(block) => &block.stmts,
        other => panic!("no block: {:?}", other),
    };
    assert_eq!(body.len(), 2);
    assert!(matches!(body[0], Stmt::Print(_)));
    match &body[1] {
        Stmt::Expression(step) => assert_eq!(shape(&step.expr), "(= i (+ i 1))"),
        other => panic!("no expression statement: {:?}", other),
    }
}

#[test]
fn a_for_loop_without_clauses_is_a_bare_while_true() {
    let statements = parse_clean("for (;;) print 1;");
    match &statements[0] {
        Stmt::While(repeated) => {
            match &repeated.condition {
                Expr::Literal(literal) => {
                    assert_eq!(literal.literal_type, LiteralExprType::True);
                    assert_eq!(literal.token.lexeme, "true");
                    assert_eq!(literal.token.token_type, TokenType::True);
                    assert_eq!(literal.token.line, 0);
                    // The literal 1 of the body came first.
                    assert_eq!(literal.id, 1);
                },
                other => panic!("no literal: {:?}", other),
            }
            assert!(matches!(&*repeated.body, Stmt::Print(_)));
        },
        other => panic!("no while: {:?}", other),
    }
}

#[test]
fn a_for_loop_may_start_with_an_expression() {
    let statements = parse_clean("for (i = 0; i < 1;) {}");
    match &statements[0] {
        Stmt::Block(block) => {
            assert!(matches!(block.stmts[0], Stmt::Expression(_)));
            assert!(matches!(block.stmts[1], Stmt::While(_)));
        },
        other => panic!("no block: {:?}", other),
    }
}

#[test]
fn a_missing_semicolon_is_reported_at_the_next_token() {
    // Recovery skips the token of the error and goes on after the next `;`.
    let (statements, errors) = parse("print 1 print 2; print 3;");
    assert_eq!(errors, vec!["[line 1] Error at 'print': Expect ';' after value."]);
    assert_eq!(statements.len(), 1);
    let (statements, errors) = parse("a = 1");
    assert_eq!(errors, vec!["[line 1] Error at end: Expect ';' after expression."]);
    assert!(statements.is_empty());
}

#[test]
fn parsing_goes_on_after_an_error() {
    let (statements, errors) = parse("var = 1;\nprint 2;\nvar b = ;\nprint 3;\n+;\nprint 4;");
    assert_eq!(errors, vec![
        "[line 1] Error at '=': Expect variable name.",
        "[line 3] Error at ';': Expect expression.",
        "[line 5] Error at '+': Expect expression.",
    ]);
    assert_eq!(statements.len(), 3);
    assert!(statements.iter().all(|statement| matches!(statement, Stmt::Print(_))));
}

#[test]
fn recovery_stops_before_a_keyword_that_begins_a_statement() {
    let (statements, errors) = parse("1 + * 2 3 var a = 1; print a;");
    assert_eq!(errors, vec!["[line 1] Error at '*': Expect expression."]);
    assert_eq!(statements.len(), 2);
    assert!(matches!(statements[0], Stmt::Variable(_)));
}

#[test]
fn an_error_in_a_block_does_not_end_the_block() {
    let (statements, errors) = parse("{ var 1; print 2; } print 3;");
    assert_eq!(errors, vec!["[line 1] Error at '1': Expect variable name."]);
    assert_eq!(statements.len(), 2);
    match &statements[0] {
        Stmt::Block(block) => assert_eq!(block.stmts.len(), 1),
        other => panic!("no block: {:?}", other),
    }
}

#[test]
fn only_a_variable_or_a_property_can_be_assigned_to() {
    let (statements, errors) = parse("a + b = c; print 1;");
    assert_eq!(errors, vec!["[line 1] Error at '=': Invalid assignment target."]);
    assert_eq!(statements.len(), 1);
    let (_, errors) = parse("(a) = 1;");
    assert_eq!(errors, vec!["[line 1] Error at '=': Invalid assignment target."]);
    let (_, errors) = parse("f() = 1;");
    assert_eq!(errors, vec!["[line 1] Error at '=': Invalid assignment target."]);
}

#[test]
fn the_first_diagnostic_of_a_missing_delimiter() {
    let message = |source: &str| {
        let (_, errors) = parse(source);
        assert!(!errors.is_empty());
        errors[0].clone()
    };
    assert_eq!(message("(1;"), "[line 1] Error at ';': Expect ')' after expression.");
    assert_eq!(message("f(1;"), "[line 1] Error at ';': Expect ')' after arguments.");
    assert_eq!(message("a.1;"), "[line 1] Error at '1': Expect property name after '.'.");
    assert_eq!(message("if a) b;"), "[line 1] Error at 'a': Expect '(' after 'if'.");
    assert_eq!(message("if (a b;"), "[line 1] Error at 'b': Expect ')' after if condition.");
    assert_eq!(message("while a) b;"), "[line 1] Error at 'a': Expect '(' after 'while'.");
    assert_eq!(message("while (a b;"), "[line 1] Error at 'b': Expect ')' after while condition.");
    assert_eq!(message("for a;;) b;"), "[line 1] Error at 'a': Expect '(' after 'for'.");
    assert_eq!(message("for (;a b) c;"), "[line 1] Error at 'b': Expect ';' after loop condition.");
    assert_eq!(message("for (;;a b) c;"), "[line 1] Error at 'b': Expect ')' after for clauses.");
    assert_eq!(message("var a = 1 2;"),
        "[line 1] Error at '2': Expect ';' after variable declaration.");
    assert_eq!(message("fun f() { return 1 }"),
        "[line 1] Error at '}': Expect ';' after return value.");
    assert_eq!(message("{ a;"), "[line 1] Error at end: Expect '}' after block.");
    assert_eq!(message("fun (a) {}"), "[line 1] Error at '(': Expect function name.");
    assert_eq!(message("fun f a) {}"), "[line 1] Error at 'a': Expect '(' after function name.");
    assert_eq!(message("fun f(1) {}"), "[line 1] Error at '1': Expect parameter name.");
    assert_eq!(message("fun f(a {}"), "[line 1] Error at '{': Expect ')' after parameters.");
    assert_eq!(message("fun f(a) a;"), "[line 1] Error at 'a': Expect '{' before function body.");
    assert_eq!(message("class { }"), "[line 1] Error at '{': Expect class name.");
    assert_eq!(message("class C m() {} }"), "[line 1] Error at 'm': Expect '{' before class body.");
    assert_eq!(message("class C { m() {}"), "[line 1] Error at end: Expect '}' after class body.");
    assert_eq!(message("class C { 1 }"), "[line 1] Error at '1': Expect method name.");
    assert_eq!(message("class C { m {} }"), "[line 1] Error at '{': Expect '(' after method name.");
    assert_eq!(message("class C { m() 1 }"), "[line 1] Error at '1': Expect '{' before method body.");
}

fn list(count: usize) -> String {
    let names: Vec<String> = (0..count).map(|i| format!("a{}", i)).collect();
    names.join(", ")
}

#[test]
fn a_call_takes_255_arguments_and_more_are_reported_without_ending_the_parse() {
    let statements = parse_clean(&format!("f({});", list(255)));
    match &statements[0] {
        Stmt::Expression(statement) => match &statement.expr {
            Expr::Call(call) => assert_eq!(call.arguments.len(), 255),
            other => panic!("no call: {:?}", other),
        },
        other => panic!("no expression statement: {:?}", other),
    }
    let (statements, errors) = parse(&format!("f({}); print 1;", list(257)));
    assert_eq!(errors, vec![
        "[line 1] Error at 'a255': Can't have more than 255 arguments.",
        "[line 1] Error at 'a256': Can't have more than 255 arguments.",
    ]);
    assert_eq!(statements.len(), 2);
    match &statements[0] {
        Stmt::Expression(statement) => match &statement.expr {
            Expr::Call(call) => assert_eq!(call.arguments.len(), 257),
            other => panic!("no call: {:?}", other),
        },
        other => panic!("no expression statement: {:?}", other),
    }
}

#[test]
fn a_function_takes_255_parameters_and_more_are_reported_without_ending_the_parse() {
    let statements = parse_clean(&format!("fun f({}) {{}}", list(255)));
    match &statements[0] {
        Stmt::Function(f) => assert_eq!(f.params.len(), 255),
        other => panic!("no function: {:?}", other),
    }
    let (statements, errors) = parse(&format!("fun f({}) {{}} print 1;", list(256)));
    assert_eq!(errors, vec!["[line 1] Error at 'a255': Can't have more than 255 parameters."]);
    assert_eq!(statements.len(), 2);
}

#[test]
fn the_parser_stops_at_eof_and_hands_its_diagnostics_over_once() {
    let (tokens, _) = scan("print;");
    let mut parser = Parser::new(tokens);
    assert!(parser.parse().is_empty());
    assert_eq!(parser.take_errors().len(), 1);
    assert!(parser.take_errors().is_empty());
    assert!(parser.parse().is_empty());
}

#[test]
fn globals_are_left_unresolved() {
    let (_, resolved, errors) = resolve("var a = 1; print a; a = 2; fun f() {} f();");
    assert!(errors.is_empty());
    assert!(resolved.is_empty());
}

#[test]
fn a_local_is_found_at_its_distance() {
    let (statements, resolved, errors) = resolve("{ var a; { var b; { a; b; } } }");
    assert!(errors.is_empty());
    let innermost = match &statements[0] {
        Stmt::Block(outer) => match &outer.stmts[1] {
            Stmt::Block(middle) => match &middle.stmts[1] {
                Stmt::Block(inner) => &inner.stmts,
                other => panic!("no block: {:?}", other),
            },
            other => panic!("no block: {:?}", other),
        },
        other => panic!("no block: {:?}", other),
    };
    let id = |statement: &Stmt| match statement {
        Stmt::Expression(s) => s.expr.id(),
        other => panic!("no expression statement: {:?}", other),
    };
    assert_eq!(resolved, vec![(id(&innermost[0]), 2), (id(&innermost[1]), 1)]);
}

#[test]
fn the_nearest_declaration_wins() {
    let (_, resolved, errors) = resolve("{ var a; { var a; a; } a; }");
    assert!(errors.is_empty());
    let distances: Vec<usize> = resolved.iter().map(|entry| entry.1).collect();
    assert_eq!(distances, vec![0, 0]);
}

#[test]
fn parameters_and_this_are_locals() {
    let (_, resolved, errors) =
        resolve("fun f(a) { return a; } class C { m(b) { this; { b; this; } } }");
    assert!(errors.is_empty());
    let distances: Vec<usize> = resolved.iter().map(|entry| entry.1).collect();
    // a; this, b, this
    assert_eq!(distances, vec![0, 1, 1, 2]);
}

#[test]
fn an_assignment_is_resolved_after_its_value() {
    let (_, resolved, errors) = resolve("{ var a; var b; a = b; }");
    assert!(errors.is_empty());
    assert_eq!(resolved.len(), 2);
    // The variable b gets its identity before the assignment does.
    assert!(resolved[0].0 < resolved[1].0);
}

#[test]
fn a_function_may_call_itself_and_sees_the_scope_of_its_declaration() {
    let (_, resolved, errors) = resolve("{ var a; fun f(n) { f(n); a; } }");
    assert!(errors.is_empty());
    let distances: Vec<usize> = resolved.iter().map(|entry| entry.1).collect();
    assert_eq!(distances, vec![1, 0, 1]);
}

#[test]
fn reading_a_local_in_its_own_initializer_is_reported() {
    let (_, _, errors) = resolve("var a = 1; { var a = a; }");
    assert_eq!(errors,
        vec!["[line 1] Error at 'a': Can't read local variable in its own initializer."]);
    let (_, _, errors) = resolve("var a = a;");
    assert!(errors.is_empty());
}

#[test]
fn declaring_a_local_twice_in_one_scope_is_reported() {
    let (_, _, errors) = resolve("{ var a; var a; }");
    assert_eq!(errors,
        vec!["[line 1] Error at 'a': Already a variable with this name in this scope."]);
    let (_, _, errors) = resolve("fun f(a, a) {}");
    assert_eq!(errors,
        vec!["[line 1] Error at 'a': Already a variable with this name in this scope."]);
    let (_, _, errors) = resolve("var a; var a; { var a; { var a; } }");
    assert!(errors.is_empty());
}

#[test]
fn return_outside_of_a_function_is_reported() {
    let (_, _, errors) = resolve("return;");
    assert_eq!(errors, vec!["[line 1] Error at 'return': Can't return from top-level code."]);
    let (_, _, errors) = resolve("{ if (true) return 1; }");
    assert_eq!(errors, vec!["[line 1] Error at 'return': Can't return from top-level code."]);
    let (_, _, errors) = resolve("fun f() { return 1; } class C { m() { return; } }");
    assert!(errors.is_empty());
}

#[test]
fn returning_a_value_from_an_initializer_is_reported() {
    let (_, _, errors) = resolve("class C { init() { return 1; } }");
    assert_eq!(errors,
        vec!["[line 1] Error at 'return': Can't return a value from an initializer."]);
    let (_, _, errors) = resolve("class C { init() { return; } other() { return 1; } }");
    assert!(errors.is_empty());
    let (_, _, errors) = resolve("class C { init() { fun f() { return 1; } } }");
    assert!(errors.is_empty());
}

#[test]
fn this_outside_of_a_class_is_reported() {
    let (_, resolved, errors) = resolve("print this;");
    assert_eq!(errors, vec!["[line 1] Error at 'this': Can't use 'this' outside of a class."]);
    assert!(resolved.is_empty());
    let (_, _, errors) = resolve("fun f() { this; }");
    assert_eq!(errors, vec!["[line 1] Error at 'this': Can't use 'this' outside of a class."]);
    let (_, _, errors) = resolve("class C { m() { fun f() { this; } } }");
    assert!(errors.is_empty());
}

#[test]
fn resolving_twice_gives_the_same_distances() {
    let source = "{ var a; fun f(b) { { a; b; } } class C { m() { this; a; } } }";
    let (_, first, _) = resolve(source);
    let (_, second, _) = resolve(source);
    assert_eq!(first, second);
    assert_eq!(first.len(), 4);
}

#[test]
fn a_resolver_visits_statements_and_expressions_as_it_resolves_them() {
    let statements = parse_clean("{ var a; fun f(b) { return a + b; } f(a); }");
    let mut resolving = Resolver::new();
    resolving.resolve(&statements);
    let mut visiting = Resolver::new();
    for statement in &statements {
        StmtAccept::<(), Resolver>::accept(statement, &mut visiting);
    }
    assert_eq!(visiting.resolved(), resolving.resolved());
    assert_eq!(visiting.resolved().len(), 4);

    // An expression by itself, in a scope that the visitor has not opened, is left to the
    // globals.
    let expr = expression("a = b;");
    let mut visiting = Resolver::new();
    ExprAccept::<(), Resolver>::accept(&expr, &mut visiting);
    assert!(visiting.resolved().is_empty());
    assert!(visiting.errors().is_empty());
    match &expr {
        Expr::Assignment(assignment) => {
            ExprAccept::<(), Resolver>::accept(assignment, &mut visiting);
        },
        other => panic!("no assignment: {:?}", other),
    }
    assert!(visiting.resolved().is_empty());
}

#[test]
fn a_copy_of_a_tree_keeps_the_identities() {
    let statements = parse_clean(
        "class C { init(a) { this.a = a; } } fun f(x) { for (;;) { if (x) return -x + f(x.y(1)); } } \
         var v = (1 < 2) or \"s\"; { print v = nil; }",
    );
    let copies: Vec<Stmt> = statements.iter().map(|statement| statement.clone()).collect();
    assert_eq!(copies, statements);
    let expr = expression("a.b(c, d)(e).h = !f and g;");
    let copy = expr.clone();
    assert_eq!(copy, expr);
    assert_eq!(copy.id(), expr.id());
    let mut of_copy = Vec::new();
    identities(&copy, &mut of_copy);
    let mut of_expr = Vec::new();
    identities(&expr, &mut of_expr);
    assert_eq!(of_copy, of_expr);
    // Copying has handed out no identity: the next parser goes on where this one was.
    let (tokens, _) = scan("a;");
    let mut parser = Parser::new(tokens);
    let parsed = parser.parse();
    let before = parser.next_id();
    let _ = parsed[0].clone();
    assert_eq!(parser.next_id(), before);
}
