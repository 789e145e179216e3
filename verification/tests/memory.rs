use lox::environment::Environment;
use lox::heap::{Heap, GLOBALS};
use lox::interpreter::{Interpreter, Outcome};
use lox::ast::expr::{BinaryExprOp, UnaryExprOp};
use lox::lox::{error, exit_code, report, run_lox, token_error, Lox, Mode};
use lox::lox_callable::{Clock, LoxCall, LoxCallable};
use lox::lox_class::LoxClass;
use lox::lox_function::LoxFunction;
use lox::lox_instance::LoxInstance;
use lox::ast::stmt::FunctionStmt;
use lox::number::{equal, key, less, less_equal, negate, not_a_number, number_text};
use lox::runtime_value::{RuntimeError, RuntimeValue};
use lox::string::{decimal, digit_str, text_eq};
use lox::token::Token;
use lox::token_type::TokenType;
use vstd::hash_map::StringHashMap;

fn name(text: &str) -> Token {
    Token { token_type: TokenType::Identifier, lexeme: text.to_string(), line: 3 }
}

fn number(value: f64) -> RuntimeValue {
    RuntimeValue::Number(value.to_bits())
}

fn text(value: &str) -> RuntimeValue {
    RuntimeValue::String(value.to_string())
}

fn doubles() -> Vec<f64> {
    vec![
        0.0, -0.0, 1.0, -1.0, 0.5, -0.5, 1.5, 2.0, 1e300, -1e300, 5e-324, -5e-324,
        f64::MIN_POSITIVE, f64::MAX, f64::MIN, f64::INFINITY, f64::NEG_INFINITY, f64::NAN,
        -f64::NAN, f64::EPSILON, 123456789.125, -3.75,
    ]
}

#[test]
fn doubles_compare_as_the_machine_compares_them() {
    for a in doubles() {
        for b in doubles() {
            let (x, y) = (a.to_bits(), b.to_bits());
            assert_eq!(equal(x, y), a == b, "{} == {}", a, b);
            assert_eq!(less(x, y), a < b, "{} < {}", a, b);
            assert_eq!(less_equal(x, y), a <= b, "{} <= {}", a, b);
        }
    }
}

#[test]
fn doubles_negate_as_the_machine_negates_them() {
    for a in doubles() {
        assert_eq!(negate(a.to_bits()), (-a).to_bits(), "-{}", a);
        assert_eq!(not_a_number(a.to_bits()), a.is_nan(), "{}", a);
    }
}

#[test]
fn the_key_orders_the_doubles() {
    assert_eq!(key(0.0f64.to_bits()), 0);
    assert_eq!(key((-0.0f64).to_bits()), 0);
    assert_eq!(key(1.0f64.to_bits()), 0x3ff0_0000_0000_0000);
    assert_eq!(key((-1.0f64).to_bits()), -0x3ff0_0000_0000_0000);
    assert!(key(f64::NEG_INFINITY.to_bits()) < key(f64::MIN.to_bits()));
    assert!(key(f64::MAX.to_bits()) < key(f64::INFINITY.to_bits()));
}

#[test]
fn a_final_point_zero_is_not_printed() {
    assert_eq!(number_text("1.0"), "1");
    assert_eq!(number_text("1.5"), "1.5");
    assert_eq!(number_text("10"), "10");
    assert_eq!(number_text("-0.0"), "-0");
    assert_eq!(number_text("100.0"), "100");
    assert_eq!(number_text("1.05"), "1.05");
    assert_eq!(number_text("1.00"), "1.00");
    assert_eq!(number_text(".0"), "");
    assert_eq!(number_text("0"), "0");
    assert_eq!(number_text(""), "");
    assert_eq!(number_text("inf"), "inf");
    assert_eq!(number_text("NaN"), "NaN");
    assert_eq!(number_text(&(1.0f64 + 0.0).to_string()), "1");
    assert_eq!(number_text(&1.5f64.to_string()), "1.5");
    assert_eq!(number_text(&1e21f64.to_string()), "1000000000000000000000");
}

#[test]
fn nil_and_false_are_falsy_and_the_rest_is_truthy() {
    assert!(!RuntimeValue::Nil.is_truthy());
    assert!(!RuntimeValue::Boolean(false).is_truthy());
    assert!(RuntimeValue::Boolean(true).is_truthy());
    assert!(number(0.0).is_truthy());
    assert!(number(f64::NAN).is_truthy());
    assert!(text("").is_truthy());
    assert!(RuntimeValue::LoxCallable(LoxCallable::Clock(Clock)).is_truthy());
    assert!(RuntimeValue::LoxInstance(0).is_truthy());
}

#[test]
fn values_are_equal_within_their_kind() {
    assert!(RuntimeValue::Nil.is_equal(&RuntimeValue::Nil));
    assert!(RuntimeValue::Boolean(true).is_equal(&RuntimeValue::Boolean(true)));
    assert!(!RuntimeValue::Boolean(true).is_equal(&RuntimeValue::Boolean(false)));
    assert!(number(2.5).is_equal(&number(2.5)));
    assert!(!number(2.5).is_equal(&number(2.25)));
    assert!(number(0.0).is_equal(&number(-0.0)));
    assert!(!number(f64::NAN).is_equal(&number(f64::NAN)));
    assert!(number(f64::INFINITY).is_equal(&number(f64::INFINITY)));
    assert!(text("ab").is_equal(&text("ab")));
    assert!(!text("ab").is_equal(&text("abc")));
    assert!(RuntimeValue::LoxInstance(1).is_equal(&RuntimeValue::LoxInstance(1)));
    assert!(!RuntimeValue::LoxInstance(1).is_equal(&RuntimeValue::LoxInstance(2)));
    let function = |handle| RuntimeValue::LoxCallable(LoxCallable::LoxFunction(handle));
    assert!(function(0).is_equal(&function(0)));
    assert!(!function(0).is_equal(&function(1)));
    assert!(!function(0).is_equal(&RuntimeValue::LoxCallable(LoxCallable::LoxClass(0))));
}

#[test]
fn values_of_two_kinds_are_never_equal() {
    let values = vec![
        RuntimeValue::Nil,
        RuntimeValue::Boolean(false),
        number(0.0),
        text(""),
        RuntimeValue::LoxCallable(LoxCallable::Clock(Clock)),
        RuntimeValue::LoxInstance(0),
    ];
    for (i, a) in values.iter().enumerate() {
        for (j, b) in values.iter().enumerate() {
            assert_eq!(a.is_equal(b), i == j);
        }
    }
}

#[test]
fn what_binary_operators_make_of_values() {
    let apply = |op, left: &RuntimeValue, right: &RuntimeValue| {
        match Interpreter::visit_binary_expr(op, left, right) {
            Outcome::Value(value) => format!("{:?}", value),
            Outcome::Arithmetic(op, a, b) => {
                format!("{:?} {} {}", op, f64::from_bits(a), f64::from_bits(b))
            },
            Outcome::Invalid => "invalid".to_string(),
        }
    };
    assert_eq!(apply(BinaryExprOp::Plus, &number(1.0), &number(2.0)), "Plus 1 2");
    assert_eq!(apply(BinaryExprOp::Plus, &text("a"), &text("b")), "String(\"ab\")");
    assert_eq!(apply(BinaryExprOp::Plus, &text("a"), &number(1.0)), "invalid");
    assert_eq!(apply(BinaryExprOp::Plus, &RuntimeValue::Nil, &RuntimeValue::Nil), "invalid");
    assert_eq!(apply(BinaryExprOp::Minus, &number(1.0), &number(2.0)), "Minus 1 2");
    assert_eq!(apply(BinaryExprOp::Times, &number(1.0), &number(2.0)), "Times 1 2");
    assert_eq!(apply(BinaryExprOp::Divide, &number(1.0), &number(0.0)), "Divide 1 0");
    assert_eq!(apply(BinaryExprOp::Minus, &text("a"), &text("b")), "invalid");
    assert_eq!(apply(BinaryExprOp::Divide, &number(1.0), &RuntimeValue::Nil), "invalid");
    assert_eq!(apply(BinaryExprOp::Less, &number(1.0), &number(2.0)), "Boolean(true)");
    assert_eq!(apply(BinaryExprOp::LessEqual, &number(2.0), &number(2.0)), "Boolean(true)");
    assert_eq!(apply(BinaryExprOp::Greater, &number(1.0), &number(2.0)), "Boolean(false)");
    assert_eq!(apply(BinaryExprOp::GreaterEqual, &number(1.0), &number(2.0)), "Boolean(false)");
    assert_eq!(apply(BinaryExprOp::Greater, &number(3.0), &number(2.0)), "Boolean(true)");
    assert_eq!(apply(BinaryExprOp::Less, &text("a"), &text("b")), "invalid");
    assert_eq!(apply(BinaryExprOp::EqualEqual, &text("a"), &number(1.0)), "Boolean(false)");
    assert_eq!(apply(BinaryExprOp::NotEqual, &text("a"), &number(1.0)), "Boolean(true)");
    assert_eq!(apply(BinaryExprOp::EqualEqual, &RuntimeValue::Nil, &RuntimeValue::Nil),
        "Boolean(true)");
}

#[test]
fn what_unary_operators_make_of_values() {
    assert_eq!(Interpreter::visit_unary_expr(UnaryExprOp::Not, &RuntimeValue::Nil),
        Some(RuntimeValue::Boolean(true)));
    assert_eq!(Interpreter::visit_unary_expr(UnaryExprOp::Not, &number(0.0)),
        Some(RuntimeValue::Boolean(false)));
    assert_eq!(Interpreter::visit_unary_expr(UnaryExprOp::Minus, &number(2.0)),
        Some(number(-2.0)));
    assert_eq!(Interpreter::visit_unary_expr(UnaryExprOp::Minus, &text("2")), None);
}

#[test]
fn a_new_heap_has_the_global_environment_only() {
    let heap = Heap::new();
    assert_eq!(heap.environments.len(), 1);
    assert_eq!(heap.environments[GLOBALS].enclosing, None);
    assert!(heap.functions.is_empty() && heap.classes.is_empty() && heap.instances.is_empty());
    assert_eq!(Environment::get(&heap, GLOBALS, &name("a")),
        Err(RuntimeError::UndefinedVariable { name: name("a") }));
}

#[test]
fn a_new_interpreter_knows_the_clock() {
    let interpreter = Interpreter::new();
    assert_eq!(Environment::get(&interpreter.heap, interpreter.globals, &name("clock")),
        Ok(RuntimeValue::LoxCallable(LoxCallable::Clock(Clock))));
    assert_eq!(interpreter.environment, interpreter.globals);
    assert!(interpreter.locals.is_empty());
}

#[test]
fn frames_by_themselves() {
    let mut frame = Environment::new();
    assert_eq!(frame.enclosing, None);
    frame.define("a".to_string(), number(1.0));
    frame.define("a".to_string(), number(2.0));
    assert_eq!(frame.values.get("a"), Some(&number(2.0)));
    assert_eq!(frame.values.len(), 1);
    assert_eq!(Environment::enclosed(7).enclosing, Some(7));
}

#[test]
fn get_searches_the_chain_and_get_at_one_frame() {
    let mut heap = Heap::new();
    let middle = heap.enclose(GLOBALS);
    let inner = heap.enclose(middle);
    let other = heap.enclose(GLOBALS);
    heap.bind(GLOBALS, "g".to_string(), text("global"));
    heap.bind(middle, "m".to_string(), text("middle"));
    heap.bind(middle, "s".to_string(), text("shadowed"));
    heap.bind(inner, "s".to_string(), text("shadowing"));
    assert_eq!(Environment::get(&heap, inner, &name("g")), Ok(text("global")));
    assert_eq!(Environment::get(&heap, inner, &name("m")), Ok(text("middle")));
    assert_eq!(Environment::get(&heap, inner, &name("s")), Ok(text("shadowing")));
    assert_eq!(Environment::get(&heap, middle, &name("s")), Ok(text("shadowed")));
    assert_eq!(Environment::get(&heap, other, &name("m")),
        Err(RuntimeError::UndefinedVariable { name: name("m") }));
    assert_eq!(Environment::get_at(&heap, inner, 0, &name("s")), Ok(text("shadowing")));
    assert_eq!(Environment::get_at(&heap, inner, 1, &name("s")), Ok(text("shadowed")));
    assert_eq!(Environment::get_at(&heap, inner, 2, &name("g")), Ok(text("global")));
    assert_eq!(Environment::get_at(&heap, inner, 0, &name("g")),
        Err(RuntimeError::UndefinedVariable { name: name("g") }));
    assert_eq!(Environment::get_at(&heap, inner, 2, &name("m")),
        Err(RuntimeError::UndefinedVariable { name: name("m") }));
    assert_eq!(Environment::ancestor(&heap, inner, 0), Some(inner));
    assert_eq!(Environment::ancestor(&heap, inner, 1), Some(middle));
    assert_eq!(Environment::ancestor(&heap, inner, 2), Some(GLOBALS));
    assert_eq!(Environment::ancestor(&heap, inner, 3), None);
    assert_eq!(Environment::binder(&heap, inner, "m"), Some(middle));
    assert_eq!(Environment::binder(&heap, inner, "none"), None);
}

#[test]
fn assign_writes_where_the_name_is_bound() {
    let mut heap = Heap::new();
    let inner = heap.enclose(GLOBALS);
    heap.bind(GLOBALS, "a".to_string(), number(1.0));
    assert_eq!(Environment::assign(&mut heap, inner, name("a"), number(2.0)), Ok(()));
    assert_eq!(Environment::get(&heap, GLOBALS, &name("a")), Ok(number(2.0)));
    assert!(heap.environments[inner].values.is_empty());
    assert_eq!(Environment::assign(&mut heap, inner, name("b"), number(3.0)),
        Err(RuntimeError::UndefinedVariable { name: name("b") }));
    assert_eq!(heap.environments[GLOBALS].values.len(), 1);
}

#[test]
fn assign_at_writes_one_frame_and_does_not_fall_back() {
    let mut heap = Heap::new();
    let inner = heap.enclose(GLOBALS);
    heap.bind(GLOBALS, "a".to_string(), number(1.0));
    heap.bind(inner, "b".to_string(), number(1.0));
    assert_eq!(Environment::assign_at(&mut heap, inner, 0, name("a"), number(2.0)),
        Err(RuntimeError::UndefinedVariable { name: name("a") }));
    assert_eq!(Environment::assign_at(&mut heap, inner, 1, name("a"), number(2.0)), Ok(()));
    assert_eq!(Environment::assign_at(&mut heap, inner, 0, name("b"), number(3.0)), Ok(()));
    assert_eq!(Environment::get(&heap, inner, &name("a")), Ok(number(2.0)));
    assert_eq!(Environment::get(&heap, inner, &name("b")), Ok(number(3.0)));
}

#[test]
fn a_write_through_one_chain_is_read_through_another() {
    let mut heap = Heap::new();
    let shared = heap.enclose(GLOBALS);
    let left = heap.enclose(shared);
    let right = heap.enclose(shared);
    heap.bind(shared, "n".to_string(), number(0.0));
    assert_eq!(Environment::assign(&mut heap, left, name("n"), number(1.0)), Ok(()));
    assert_eq!(Environment::get(&heap, right, &name("n")), Ok(number(1.0)));
    assert_eq!(Environment::assign_at(&mut heap, right, 1, name("n"), number(2.0)), Ok(()));
    assert_eq!(Environment::get_at(&heap, left, 1, &name("n")), Ok(number(2.0)));
}

fn declaration(function: &str, params: &[&str]) -> FunctionStmt {
    FunctionStmt {
        name: name(function),
        params: params.iter().map(|p| name(p)).collect(),
        body: Vec::new(),
    }
}

#[test]
fn functions_classes_and_the_clock_have_their_arity_and_text() {
    let two = declaration("two", &["a", "b"]);
    let init = declaration("init", &["a", "b", "c"]);
    let mut heap = Heap::new();
    let function = heap.add_function(LoxFunction::new(&two, GLOBALS, false));
    let initializer = heap.add_function(LoxFunction::new(&init, GLOBALS, true));
    let mut methods = StringHashMap::new();
    methods.insert("init".to_string(), initializer);
    let with_init = heap.add_class(LoxClass::new("With".to_string(), methods));
    let without = heap.add_class(LoxClass::new("Without".to_string(), StringHashMap::new()));
    assert_eq!(heap.functions[function].arity(), 2);
    assert_eq!(heap.functions[function].to_string(), "<fn two>");
    assert_eq!(LoxCallable::LoxFunction(function).arity(&heap), 2);
    assert_eq!(LoxCall::to_string(&LoxCallable::LoxFunction(function), &heap), "<fn two>");
    assert_eq!(LoxCallable::LoxClass(with_init).arity(&heap), 3);
    assert_eq!(LoxCallable::LoxClass(without).arity(&heap), 0);
    assert_eq!(LoxClass::arity(&heap, with_init), 3);
    assert_eq!(LoxClass::arity(&heap, without), 0);
    assert_eq!(LoxCall::to_string(&LoxCallable::LoxClass(with_init), &heap), "With");
    assert_eq!(heap.classes[without].to_string(), "Without");
    assert_eq!(LoxCallable::Clock(Clock).arity(&heap), 0);
    assert_eq!(LoxCall::to_string(&LoxCallable::Clock(Clock), &heap), "<fn clock>");
    assert_eq!(Clock.arity(&heap), 0);
    assert_eq!(LoxCall::to_string(&Clock, &heap), "<fn clock>");
    assert_eq!(heap.classes[with_init].find_method("init"), Some(initializer));
    assert_eq!(heap.classes[with_init].find_method("other"), None);
    let instance = heap.add_instance(with_init);
    assert_eq!(heap.stringify(&RuntimeValue::LoxInstance(instance)),
        Some("With instance".to_string()));
    assert_eq!(heap.stringify(&number(1.0)), None);
    assert_eq!(heap.stringify(&RuntimeValue::Nil), Some("nil".to_string()));
}

#[test]
fn binding_a_method_makes_a_new_function_that_knows_the_instance() {
    let get = declaration("get", &[]);
    let mut heap = Heap::new();
    let closure = heap.enclose(GLOBALS);
    let method = heap.add_function(LoxFunction::new(&get, closure, false));
    let mut methods = StringHashMap::new();
    methods.insert("get".to_string(), method);
    let class = heap.add_class(LoxClass::new("C".to_string(), methods));
    let instance = heap.add_instance(class);
    let bound = LoxFunction::bind(&mut heap, method, instance);
    assert_ne!(bound, method);
    let frame = heap.functions[bound].closure;
    assert_eq!(heap.environments[frame].enclosing, Some(closure));
    assert_eq!(Environment::get_at(&heap, frame, 0, &name("this")),
        Ok(RuntimeValue::LoxInstance(instance)));
    assert_eq!(heap.functions[bound].declaration.name.lexeme, "get");
    assert!(!heap.functions[bound].is_initializer);
    let again = LoxFunction::bind(&mut heap, method, instance);
    assert_ne!(again, bound);
}

#[test]
fn a_property_is_a_field_or_else_a_bound_method() {
    let get = declaration("get", &[]);
    let mut heap = Heap::new();
    let method = heap.add_function(LoxFunction::new(&get, GLOBALS, false));
    let mut methods = StringHashMap::new();
    methods.insert("get".to_string(), method);
    let class = heap.add_class(LoxClass::new("C".to_string(), methods));
    let instance = heap.add_instance(class);
    assert_eq!(LoxInstance::get(&mut heap, instance, &name("missing")),
        Err(RuntimeError::UndefinedProperty { name: name("missing") }));
    let functions = heap.functions.len();
    assert_eq!(LoxInstance::get(&mut heap, instance, &name("get")),
        Ok(RuntimeValue::LoxCallable(LoxCallable::LoxFunction(functions))));
    heap.set_property(instance, name("get"), number(1.0));
    assert_eq!(LoxInstance::get(&mut heap, instance, &name("get")), Ok(number(1.0)));
    heap.instances[instance].set(name("x"), text("field"));
    assert_eq!(heap.instances[instance].field("x"), Some(text("field")));
    assert_eq!(heap.instances[instance].field("y"), None);
    assert_eq!(LoxInstance::new(class).class, class);
}

#[test]
fn diagnostics_are_formatted_with_line_and_place() {
    assert_eq!(report(12, " at 'x'", "Message."), "[line 12] Error at 'x': Message.");
    assert_eq!(error(3, "Unexpected character."), "[line 3] Error: Unexpected character.");
    assert_eq!(token_error(&name("abc"), "Bad."), "[line 3] Error at 'abc': Bad.");
    let eof = Token { token_type: TokenType::EOF, lexeme: String::new(), line: 40 };
    assert_eq!(token_error(&eof, "Expect expression."),
        "[line 40] Error at end: Expect expression.");
}

#[test]
fn exit_codes() {
    assert_eq!(exit_code(false, false), 0);
    assert_eq!(exit_code(true, false), 65);
    assert_eq!(exit_code(false, true), 70);
    assert_eq!(exit_code(true, true), 65);
}

#[test]
fn decimal_numerals() {
    assert_eq!(decimal(0), "0");
    assert_eq!(decimal(7), "7");
    assert_eq!(decimal(10), "10");
    assert_eq!(decimal(1234567890), "1234567890");
    assert_eq!(decimal(usize::MAX), usize::MAX.to_string());
    assert_eq!(digit_str(0), "0");
    assert_eq!(digit_str(9), "9");
    assert!(text_eq("init", "init"));
    assert!(!text_eq("init", "Init"));
    assert!(!text_eq("init", "ini"));
}

#[test]
fn a_value_is_cloned_whole() {
    let values = vec![
        RuntimeValue::Nil,
        RuntimeValue::Boolean(true),
        number(1.5),
        text("text"),
        RuntimeValue::LoxCallable(LoxCallable::LoxClass(3)),
        RuntimeValue::LoxInstance(4),
    ];
    for value in &values {
        assert_eq!(&value.clone(), value);
    }
    let token = name("n");
    assert_eq!(token.clone(), token);
    assert_eq!(TokenType::String("s".to_string()).clone(), TokenType::String("s".to_string()));
}

#[test]
fn calling_through_the_trait_starts_the_call_on_the_machine() {
    let two = declaration("two", &["a", "b"]);
    let mut interpreter = Interpreter::new();
    let function = interpreter.heap.add_function(LoxFunction::new(&two, GLOBALS, false));
    assert_eq!(Clock.call(&mut interpreter, Vec::new()), lox::interpreter::Action::Clock);
    interpreter.number(1.0f64.to_bits());
    let action = LoxCallable::LoxFunction(function).call(&mut interpreter, vec![number(1.0)]);
    assert_eq!(action, lox::interpreter::Action::Failed(
        RuntimeError::WrongNumberOfArgs { expected: 2, found: 1 },
    ));
    let action = LoxCallable::LoxFunction(function)
        .call(&mut interpreter, vec![number(1.0), number(2.0)]);
    assert_eq!(action, lox::interpreter::Action::Continue);
    let frame = interpreter.environment;
    assert_eq!(interpreter.heap.environments[frame].enclosing, Some(GLOBALS));
    assert_eq!(Environment::get_at(&interpreter.heap, frame, 0, &name("b")), Ok(number(2.0)));
    assert_eq!(interpreter.stack.len(), 2);
}

#[test]
fn the_command_line_by_its_arguments() {
    assert_eq!(run_lox(0), Mode::Prompt);
    assert_eq!(run_lox(1), Mode::Script);
    assert_eq!(run_lox(2), Mode::Usage);
    assert_eq!(run_lox(7), Mode::Usage);
}

#[test]
fn a_run_remembers_what_went_wrong() {
    let mut lox = Lox::new();
    assert!(!lox.had_error() && !lox.had_runtime_error());
    assert_eq!(lox.exit_code(), 0);
    lox.reported(&Vec::new());
    assert!(!lox.had_error());
    lox.runtime_error();
    assert!(lox.had_runtime_error());
    assert_eq!(lox.exit_code(), 70);
    lox.reported(&vec!["[line 1] Error: Unexpected character.".to_string()]);
    assert!(lox.had_error());
    assert_eq!(lox.exit_code(), 65);
    lox.reported(&Vec::new());
    assert!(lox.had_error());
    lox.next_input();
    assert!(!lox.had_error() && lox.had_runtime_error());
    assert_eq!(lox.exit_code(), 70);
}
