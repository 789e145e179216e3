use lox::ast::expr::BinaryExprOp;
use lox::ast::stmt::Stmt;
use lox::interpreter::{Action, Interpreter};
use lox::parser::Parser;
use lox::resolver::Resolver;
use lox::runtime_value::{RuntimeError, RuntimeValue};
use lox::scanner::Scanner;

/// What a program did: the lines it printed, the diagnostics of the scanner,
/// the parser and the resolver, and the runtime error that ended it, if one
/// did.
struct Outcome {
    printed: Vec<String>,
    diagnostics: Vec<String>,
    failure: Option<RuntimeError>,
}

fn parse(source: &str) -> (Vec<Stmt>, Vec<String>) {
    let (tokens, mut diagnostics) = Scanner::new(source.to_string()).scan_tokens();
    let mut parser = Parser::new(tokens);
    let statements = parser.parse();
    diagnostics.extend(parser.take_errors());
    (statements, diagnostics)
}

fn compute(op: BinaryExprOp, a: u64, b: u64) -> u64 {
    let (a, b) = (f64::from_bits(a), f64::from_bits(b));
    let result = match op {
        BinaryExprOp::Plus => a + b,
        BinaryExprOp::Minus => a - b,
        BinaryExprOp::Times => a * b,
        BinaryExprOp::Divide => a / b,
        _ => unreachable!(),
    };
    result.to_bits()
}

/// Runs a program with a host that computes on doubles and whose clock
/// stands at 12.5 seconds.
fn run(source: &str) -> Outcome {
    let (statements, mut diagnostics) = parse(source);
    let mut resolver = Resolver::new();
    resolver.resolve(&statements);
    diagnostics.extend(resolver.errors().iter().cloned());
    let mut printed = Vec::new();
    if !diagnostics.is_empty() {
        return Outcome { printed, diagnostics, failure: None };
    }
    let mut interpreter = Interpreter::new();
    for (id, depth) in resolver.resolved() {
        interpreter.resolve(*id, *depth);
    }
    interpreter.interpret(&statements);
    let mut failure = None;
    loop {
        match interpreter.run(1_000_000) {
            Action::Continue => panic!("the program did not end"),
            Action::Print(line) => printed.push(line),
            Action::Clock => interpreter.number(12.5f64.to_bits()),
            Action::Arithmetic(op, a, b) => interpreter.number(compute(op, a, b)),
            Action::Decode(numeral) => {
                let value: f64 = numeral.parse().unwrap();
                interpreter.number(value.to_bits())
            },
            Action::Format(bits) => interpreter.text(&f64::from_bits(bits).to_string()),
            Action::Finished => break,
            Action::Failed(error) => {
                failure = Some(error);
                break;
            },
        }
    }
    Outcome { printed, diagnostics, failure }
}

fn prints(source: &str) -> Vec<String> {
    let outcome = run(source);
    assert_eq!(outcome.diagnostics, Vec::<String>::new());
    assert_eq!(outcome.failure, None);
    outcome.printed
}

fn fails(source: &str) -> RuntimeError {
    let outcome = run(source);
    assert_eq!(outcome.diagnostics, Vec::<String>::new());
    outcome.failure.expect("a runtime error")
}

#[test]
fn prints_a_sum() {
    assert_eq!(prints("print 1 + 2;"), vec!["3"]);
}

#[test]
fn concatenates_strings() {
    assert_eq!(prints("var a = \"hi \"; print a + \"there\";"), vec!["hi there"]);
}

#[test]
fn a_closure_keeps_its_variable() {
    let source = "fun mk() { var i=0; fun inc(){ i=i+1; return i; } return inc; } \
                  var c=mk(); print c(); print c(); print c();";
    assert_eq!(prints(source), vec!["1", "2", "3"]);
}

#[test]
fn an_initializer_sets_a_field_that_a_method_reads() {
    let source = "class P{ init(n){ this.n=n;} g(){return this.n;}} print P(7).g();";
    assert_eq!(prints(source), vec!["7"]);
}

#[test]
fn infinities_are_equal() {
    assert_eq!(prints("print 1/0 == 1/0;"), vec!["true"]);
}

#[test]
fn an_undefined_variable_is_a_runtime_error() {
    match fails("var x = y;") {
        RuntimeError::UndefinedVariable { name } => {
            assert_eq!(name.lexeme, "y");
            assert_eq!(name.line, 1);
        },
        other => panic!("unexpected error {:?}", other),
    }
}

#[test]
fn the_first_return_ends_the_function() {
    assert_eq!(prints("fun f(){ return 1; return 2; } print f();"), vec!["1"]);
}

#[test]
fn an_inner_block_shadows_and_the_outer_variable_stays() {
    assert_eq!(prints("{ var a=1; { var a=2; print a; } print a; }"), vec!["2", "1"]);
}

#[test]
fn a_function_sees_a_later_assignment_to_a_captured_variable() {
    let source = "var a = \"before\"; fun show() { print a; } a = \"after\"; show();";
    assert_eq!(prints(source), vec!["after"]);
}

#[test]
fn a_closure_is_bound_to_the_scope_of_its_declaration() {
    let source = "var a = \"global\"; { fun show() { print a; } show(); var a = \"block\"; show(); }";
    assert_eq!(prints(source), vec!["global", "global"]);
}

#[test]
fn and_does_not_evaluate_its_right_side_after_false() {
    let source = "var n = 0; fun touch() { n = n + 1; return true; } \
                  print false and touch(); print n;";
    assert_eq!(prints(source), vec!["false", "0"]);
}

#[test]
fn or_does_not_evaluate_its_right_side_after_true() {
    let source = "var n = 0; fun touch() { n = n + 1; return true; } \
                  print true or touch(); print n;";
    assert_eq!(prints(source), vec!["true", "0"]);
}

#[test]
fn and_and_or_evaluate_their_right_side_when_the_left_does_not_decide() {
    let source = "var n = 0; fun touch() { n = n + 1; return 7; } \
                  print true and touch(); print nil or touch(); print n;";
    assert_eq!(prints(source), vec!["7", "7", "2"]);
}

#[test]
fn logical_operators_give_the_operand_not_a_boolean() {
    assert_eq!(prints("print nil or \"yes\"; print 0 and \"zero is truthy\"; print nil and 1;"),
        vec!["yes", "zero is truthy", "nil"]);
}

#[test]
fn an_integral_number_prints_without_a_fraction() {
    assert_eq!(prints("print 1.0 + 0.0; print 1.5; print 123.0; print 0.5 + 0.5;"),
        vec!["1", "1.5", "123", "1"]);
}

#[test]
fn values_print_as_the_language_writes_them() {
    let source = "print nil; print true; print false; print \"text\"; print clock; \
                  fun f() {} print f; class C {} print C; print C();";
    assert_eq!(prints(source),
        vec!["nil", "true", "false", "text", "<fn clock>", "<fn f>", "C", "C instance"]);
}

#[test]
fn equality_is_reflexive_on_primitives() {
    let source = "print nil == nil; print true == true; print false == false; \
                  print 1 == 1; print \"a\" == \"a\"; print 0 == -0;";
    assert_eq!(prints(source), vec!["true", "true", "true", "true", "true", "true"]);
}

#[test]
fn equality_across_kinds_is_false_and_no_error() {
    let source = "print nil == false; print 1 == \"1\"; print \"\" == nil; print 0 == false; \
                  print clock == 1; print nil != 1;";
    assert_eq!(prints(source), vec!["false", "false", "false", "false", "false", "true"]);
}

#[test]
fn not_a_number_equals_nothing() {
    assert_eq!(prints("var nan = 0/0; print nan == nan; print nan != nan; print nan < 1;"),
        vec!["false", "true", "false"]);
}

#[test]
fn callables_and_instances_are_equal_by_identity() {
    let source = "fun f() {} var g = f; print f == g; class C { m() {} } var a = C(); var b = a; \
                  print a == b; print a == C(); print C == C; print a.m == a.m; print clock == clock;";
    assert_eq!(prints(source), vec!["true", "true", "false", "true", "false", "true"]);
}

#[test]
fn an_initializer_returns_the_receiver() {
    let source = "class C { init() { this.x = 1; return; } } var c = C(); \
                  print c.init() == c; print c.x;";
    assert_eq!(prints(source), vec!["true", "1"]);
}

#[test]
fn construction_gives_the_instance_that_the_initializer_saw() {
    let source = "var seen; class C { init(n) { seen = this; this.n = n; } } var c = C(3); \
                  print seen == c; print c.n;";
    assert_eq!(prints(source), vec!["true", "3"]);
}

#[test]
fn arithmetic_and_comparison() {
    let source = "print 7 - 2 * 3; print (7 - 2) * 3; print 1 / 4; print -3 + 1; \
                  print 1 < 2; print 2 <= 2; print 3 > 4; print 4 >= 5; print !nil; print !0;";
    assert_eq!(prints(source),
        vec!["1", "15", "0.25", "-2", "true", "true", "false", "false", "true", "false"]);
}

#[test]
fn while_and_for_loops() {
    let source = "var i = 0; while (i < 3) { print i; i = i + 1; } \
                  for (var j = 0; j < 2; j = j + 1) print j; \
                  var k = 0; for (; k < 1;) { k = k + 1; } print k;";
    assert_eq!(prints(source), vec!["0", "1", "2", "0", "1", "1"]);
}

#[test]
fn a_for_loop_without_a_condition_runs_until_return() {
    let source = "fun f() { for (var i = 0;; i = i + 1) { if (i == 3) return i; } } print f();";
    assert_eq!(prints(source), vec!["3"]);
}

#[test]
fn if_and_else() {
    let source = "if (1 < 2) print \"then\"; else print \"else\"; if (nil) print \"no\"; \
                  if (false) print \"no\"; else print \"otherwise\";";
    assert_eq!(prints(source), vec!["then", "otherwise"]);
}

#[test]
fn recursion() {
    let source = "fun fib(n) { if (n < 2) return n; return fib(n - 1) + fib(n - 2); } print fib(15);";
    assert_eq!(prints(source), vec!["610"]);
}

#[test]
fn a_function_without_return_gives_nil() {
    assert_eq!(prints("fun f() {} print f();"), vec!["nil"]);
}

#[test]
fn a_return_leaves_nested_blocks_and_loops() {
    let source = "fun f() { var a = 1; { while (true) { { return a; } } } } var a = 2; \
                  print f(); print a;";
    assert_eq!(prints(source), vec!["1", "2"]);
}

#[test]
fn fields_shadow_methods() {
    let source = "class C { m() { return \"method\"; } } var c = C(); print c.m(); \
                  fun other() { return \"field\"; } c.m = other; print c.m();";
    assert_eq!(prints(source), vec!["method", "field"]);
}

#[test]
fn instances_of_a_class_share_its_methods_and_not_their_fields() {
    let source = "class C { get() { return this.v; } } var a = C(); var b = C(); \
                  a.v = 1; b.v = 2; print a.get(); print b.get();";
    assert_eq!(prints(source), vec!["1", "2"]);
}

#[test]
fn a_bound_method_remembers_its_instance() {
    let source = "class C { init(v) { this.v = v; } get() { return this.v; } } \
                  var m = C(5).get; print m();";
    assert_eq!(prints(source), vec!["5"]);
}

#[test]
fn a_method_may_name_its_class() {
    let source = "class C { make() { return C(); } } print C().make();";
    assert_eq!(prints(source), vec!["C instance"]);
}

#[test]
fn a_set_expression_has_the_value_written() {
    assert_eq!(prints("class C {} var c = C(); print c.x = 4; var a; print a = 5;"),
        vec!["4", "5"]);
}

#[test]
fn the_clock_gives_what_the_host_reads() {
    assert_eq!(prints("print clock();"), vec!["12.5"]);
}

#[test]
fn arguments_are_evaluated_from_left_to_right() {
    let source = "fun show(x) { print x; return x; } fun three(a, b, c) { return a + b + c; } \
                  print three(show(1), show(2), show(3));";
    assert_eq!(prints(source), vec!["1", "2", "3", "6"]);
}

#[test]
fn a_global_may_be_defined_again() {
    assert_eq!(prints("var a = 1; var a = 2; print a;"), vec!["2"]);
}

#[test]
fn a_variable_without_initializer_is_nil() {
    assert_eq!(prints("var a; print a;"), vec!["nil"]);
}

#[test]
fn assigning_to_an_undefined_global_is_an_error() {
    match fails("a = 1;") {
        RuntimeError::UndefinedVariable { name } => assert_eq!(name.lexeme, "a"),
        other => panic!("unexpected error {:?}", other),
    }
}

#[test]
fn negating_what_is_no_number_is_an_error() {
    match fails("print -\"text\";") {
        RuntimeError::InvalidUnaryExpr { operator } => assert_eq!(operator.lexeme, "-"),
        other => panic!("unexpected error {:?}", other),
    }
}

#[test]
fn adding_a_number_and_a_string_is_an_error() {
    match fails("print 1 + \"one\";") {
        RuntimeError::InvalidBinaryExpr { operator } => assert_eq!(operator.lexeme, "+"),
        other => panic!("unexpected error {:?}", other),
    }
}

#[test]
fn comparing_strings_is_an_error() {
    match fails("print \"a\" < \"b\";") {
        RuntimeError::InvalidBinaryExpr { operator } => assert_eq!(operator.lexeme, "<"),
        other => panic!("unexpected error {:?}", other),
    }
}

#[test]
fn subtracting_from_nil_is_an_error() {
    assert!(matches!(fails("print nil - 1;"), RuntimeError::InvalidBinaryExpr { .. }));
}

#[test]
fn calling_what_is_not_callable_is_an_error() {
    assert_eq!(fails("\"text\"();"),
        RuntimeError::InvalidCallable { value: RuntimeValue::String("text".to_string()) });
}

#[test]
fn a_wrong_number_of_arguments_is_an_error() {
    assert_eq!(fails("fun f(a, b) {} f(1);"),
        RuntimeError::WrongNumberOfArgs { expected: 2, found: 1 });
    assert_eq!(fails("clock(1);"), RuntimeError::WrongNumberOfArgs { expected: 0, found: 1 });
    assert_eq!(fails("class C { init(a) {} } C();"),
        RuntimeError::WrongNumberOfArgs { expected: 1, found: 0 });
    assert_eq!(fails("class C {} C(1);"), RuntimeError::WrongNumberOfArgs { expected: 0, found: 1 });
}

#[test]
fn reading_a_property_of_what_is_no_instance_is_an_error() {
    match fails("var a = 1; print a.b;") {
        RuntimeError::InvalidGetExpr { name } => assert_eq!(name.lexeme, "b"),
        other => panic!("unexpected error {:?}", other),
    }
}

#[test]
fn writing_a_property_of_what_is_no_instance_is_an_error() {
    match fails("var a = \"text\"; a.b = 1;") {
        RuntimeError::InvalidSetExpr { name } => assert_eq!(name.lexeme, "b"),
        other => panic!("unexpected error {:?}", other),
    }
}

#[test]
fn reading_an_undefined_property_is_an_error() {
    match fails("class C {} print C().missing;") {
        RuntimeError::UndefinedProperty { name } => assert_eq!(name.lexeme, "missing"),
        other => panic!("unexpected error {:?}", other),
    }
}

#[test]
fn a_runtime_error_ends_the_program_and_keeps_what_was_printed() {
    let outcome = run("print 1; print nil + 1; print 2;");
    assert_eq!(outcome.printed, vec!["1"]);
    assert!(matches!(outcome.failure, Some(RuntimeError::InvalidBinaryExpr { .. })));
}

#[test]
fn the_machine_is_ready_for_more_statements_after_an_error() {
    let (first, _) = parse("var a = 1; { var b = 2; print b + nil; }");
    let (second, _) = parse("print a;");
    let mut interpreter = Interpreter::new();
    interpreter.interpret(&first);
    let mut action = interpreter.run(1000);
    loop {
        match action {
            Action::Decode(numeral) => {
                let value: f64 = numeral.parse().unwrap();
                interpreter.number(value.to_bits());
            },
            Action::Failed(_) => break,
            other => panic!("unexpected action {:?}", other),
        }
        action = interpreter.run(1000);
    }
    assert_eq!(interpreter.environment, interpreter.globals);
    assert!(interpreter.stack.is_empty());
    interpreter.interpret(&second);
    assert_eq!(interpreter.run(1000), Action::Format(1.0f64.to_bits()));
    interpreter.text("1.0");
    assert_eq!(interpreter.run(1000), Action::Print("1".to_string()));
    assert_eq!(interpreter.run(1000), Action::Finished);
}

#[test]
fn run_stops_when_the_moves_run_out() {
    let (statements, _) = parse("while (true) {}");
    let mut interpreter = Interpreter::new();
    interpreter.interpret(&statements);
    assert_eq!(interpreter.run(100), Action::Continue);
    assert_eq!(interpreter.run(100), Action::Continue);
}

#[test]
fn a_step_asks_the_host_for_arithmetic() {
    let (statements, _) = parse("1 - 2;");
    let mut interpreter = Interpreter::new();
    interpreter.interpret(&statements);
    assert_eq!(interpreter.run(100), Action::Decode("1".to_string()));
    interpreter.number(1.0f64.to_bits());
    assert_eq!(interpreter.run(100), Action::Decode("2".to_string()));
    interpreter.number(2.0f64.to_bits());
    assert_eq!(interpreter.run(100),
        Action::Arithmetic(BinaryExprOp::Minus, 1.0f64.to_bits(), 2.0f64.to_bits()));
    interpreter.number((-1.0f64).to_bits());
    assert_eq!(interpreter.run(100), Action::Finished);
}

#[test]
fn the_first_distance_recorded_for_an_expression_stays() {
    let mut interpreter = Interpreter::new();
    interpreter.resolve(4, 1);
    interpreter.resolve(4, 2);
    interpreter.resolve(5, 0);
    assert_eq!(interpreter.locals.get(&4), Some(&1));
    assert_eq!(interpreter.locals.get(&5), Some(&0));
}

#[test]
fn a_return_at_the_top_level_reaches_the_driver() {
    // The resolver reports it; the machine, run all the same, hands it on.
    let (statements, diagnostics) = parse("return 1;");
    assert!(diagnostics.is_empty());
    let mut interpreter = Interpreter::new();
    interpreter.interpret(&statements);
    assert_eq!(interpreter.run(100), Action::Decode("1".to_string()));
    interpreter.number(1.0f64.to_bits());
    assert_eq!(interpreter.run(100),
        Action::Failed(RuntimeError::NonErrorReturnShortCircuit {
            value: RuntimeValue::Number(1.0f64.to_bits()),
        }));
}
