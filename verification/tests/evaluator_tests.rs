use nova::ast::{BlockStatement, Identifier};
use nova::environment::Environment;
use nova::evaluator::{eval_program, evaluate};
use nova::object::{Function, Object};
use nova::parser::parse;
use nova::semantics::Fault;
use nova::token::TokenType;

fn run_in(source: &str, env: &mut Environment) -> Result<Object, Fault> {
    let (program, errors) = parse(source.to_string()).expect("every literal fits");
    assert!(errors.is_empty(), "unexpected errors: {:?}", errors);
    evaluate(&program, env, 200)
}

fn run(source: &str) -> Result<Object, Fault> {
    run_in(source, &mut Environment::new())
}

fn value(source: &str) -> Object {
    run(source).expect("no fault")
}

fn shown(source: &str) -> String {
    value(source).to_string()
}

#[test]
fn precedence_decides_the_value() {
    assert_eq!(value("1 + 2 * 3"), Object::Integer(7));
    assert_eq!(value("1 - 2 - 3"), Object::Integer(-4));
    assert_eq!(value("(1 + 2) * 3"), Object::Integer(9));
    assert_eq!(value("2 * 3 + 4 * 5"), Object::Integer(26));
    assert_eq!(value("100 / 10 / 5"), Object::Integer(2));
    assert_eq!(value("5 + 5 * 2 - 10 / 2"), Object::Integer(10));
    assert_eq!(value("1 + 2 < 2 * 2 == true"), Object::Null);
    assert_eq!(value("1 + 2 < 2 * 2"), Object::Boolean(true));
}

#[test]
fn prefix_operators() {
    assert_eq!(value("-5"), Object::Integer(-5));
    assert_eq!(value("--5"), Object::Integer(5));
    assert_eq!(value("!true"), Object::Boolean(false));
    assert_eq!(value("!false"), Object::Boolean(true));
    assert_eq!(value("!5"), Object::Boolean(false));
    assert_eq!(value("!0"), Object::Boolean(false));
    assert_eq!(value("!nonexistent"), Object::Boolean(true));
    assert_eq!(value("!!nonexistent"), Object::Boolean(false));
    assert_eq!(value("!fn(x) { x }"), Object::Boolean(false));
    assert_eq!(value("-true"), Object::Null);
    assert_eq!(value("-nonexistent"), Object::Null);
}

#[test]
fn conditionals() {
    assert_eq!(value("if (1 < 2) { 10 } else { 20 }"), Object::Integer(10));
    assert_eq!(value("if (1 > 2) { 10 } else { 20 }"), Object::Integer(20));
    assert_eq!(value("if (1 > 2) { 10 }"), Object::Null);
    assert_eq!(value("if (true) { }"), Object::Null);
}

#[test]
fn every_value_but_null_and_false_is_truthy() {
    assert_eq!(value("if (0) { 1 } else { 2 }"), Object::Integer(1));
    assert_eq!(value("if (5) { 1 } else { 2 }"), Object::Integer(1));
    assert_eq!(value("if (true) { 1 } else { 2 }"), Object::Integer(1));
    assert_eq!(value("if (fn() { 0 }) { 1 } else { 2 }"), Object::Integer(1));
    assert_eq!(value("if (false) { 1 } else { 2 }"), Object::Integer(2));
    assert_eq!(value("if (missing) { 1 } else { 2 }"), Object::Integer(2));
}

#[test]
fn functions_and_calls() {
    assert_eq!(
        value("let add = fn(x, y) { x + y }; add(2, 3)"),
        Object::Integer(5)
    );
    assert_eq!(value("fn(x) { x * x }(7)"), Object::Integer(49));
    assert_eq!(value("let k = fn() { 42 }; k()"), Object::Integer(42));
    assert_eq!(
        value("let twice = fn(f, x) { f(f(x)) }; twice(fn(n) { n + 1 }, 5)"),
        Object::Integer(7)
    );
    assert_eq!(value("fn() { }()"), Object::Null);
}

#[test]
fn arguments_beyond_the_parameters_are_ignored() {
    assert_eq!(value("fn(x) { x }(1, 2, 3)"), Object::Integer(1));
}

#[test]
fn of_two_parameters_with_one_name_the_later_counts() {
    assert_eq!(value("fn(x, x) { x }(1, 2)"), Object::Integer(2));
}

#[test]
fn calling_what_is_no_function_gives_null() {
    assert_eq!(value("5(1)"), Object::Null);
    assert_eq!(value("missing(1, 2)"), Object::Null);
    assert_eq!(value("true()"), Object::Null);
}

#[test]
fn arguments_are_evaluated_even_when_the_callee_is_no_function() {
    assert_eq!(run("5(1 / 0)"), Err(Fault::DivisionByZero));
}

#[test]
fn return_stops_the_program() {
    assert_eq!(value("let x = 5; return x; 9"), Object::Integer(5));
    let mut env = Environment::new();
    assert_eq!(
        run_in("return 1; let after = 2;", &mut env),
        Ok(Object::Integer(1))
    );
    assert_eq!(env.get("after"), None);
    assert_eq!(value("return 2 * 3"), Object::Integer(6));
}

#[test]
fn return_passes_through_nested_blocks() {
    assert_eq!(
        value("if (true) { if (true) { return 10; } return 1; }"),
        Object::Integer(10)
    );
    assert_eq!(
        value("if (true) { if (true) { return 10; } 1 } 2"),
        Object::Integer(10)
    );
    assert_eq!(
        value("let f = fn(x) { if (x > 0) { return 1; } return 0; }; f(5) + f(0 - 5) * 10"),
        Object::Integer(1)
    );
    assert_eq!(
        value("let f = fn() { if (true) { return 3; } 4 }; f(); 7"),
        Object::Integer(7)
    );
}

#[test]
fn a_return_inside_a_bound_value_still_returns() {
    let mut env = Environment::new();
    assert_eq!(
        run_in("let x = if (true) { return 1; }; 5", &mut env),
        Ok(Object::Integer(1))
    );
    assert_eq!(
        env.get("x"),
        Some(Object::ReturnValue(Box::new(Object::Integer(1))))
    );
    assert_eq!(value("1 + if (true) { return 2; }"), Object::Null);
}

#[test]
fn functions_close_over_nothing() {
    assert_eq!(value("let y = 10; let f = fn() { y }; f()"), Object::Null);
    assert_eq!(value("let y = 10; let f = fn(x) { y }; f(1)"), Object::Null);
    assert_eq!(value("let y = 10; fn(x) { x + y }(1)"), Object::Null);
    assert_eq!(
        value("let y = 10; let f = fn(x) { let z = x; z }; f(3)"),
        Object::Integer(3)
    );
    assert_eq!(value("let f = fn(n) { f }; f(1)"), Object::Null);
}

#[test]
fn a_call_changes_nothing_in_the_scope_of_the_caller() {
    let mut env = Environment::new();
    assert_eq!(
        run_in("let x = 1; let f = fn(x) { let y = 2; let x = 3; x }; f(9)", &mut env),
        Ok(Object::Integer(3))
    );
    assert_eq!(env.get("x"), Some(Object::Integer(1)));
    assert_eq!(env.get("y"), None);
}

#[test]
fn let_again_overwrites() {
    assert_eq!(value("let x = 1; let x = 2; x"), Object::Integer(2));
    let mut env = Environment::new();
    assert_eq!(run_in("let x = 5;", &mut env), Ok(Object::Integer(5)));
    assert_eq!(run_in("x", &mut env), Ok(Object::Integer(5)));
    assert_eq!(run_in("let x = true;", &mut env), Ok(Object::Boolean(true)));
    assert_eq!(run_in("x", &mut env), Ok(Object::Boolean(true)));
    assert_eq!(run_in("let x = x;", &mut env), Ok(Object::Boolean(true)));
}

#[test]
fn the_scope_lives_from_line_to_line() {
    let mut env = Environment::new();
    assert_eq!(run_in("let a = 10;", &mut env), Ok(Object::Integer(10)));
    assert_eq!(run_in("let b = a * 2;", &mut env), Ok(Object::Integer(20)));
    assert_eq!(run_in("a + b", &mut env), Ok(Object::Integer(30)));
    assert_eq!(run_in("c", &mut env), Ok(Object::Null));
}

#[test]
fn a_block_binds_in_the_scope_around_it() {
    assert_eq!(value("if (true) { let x = 5 } x"), Object::Integer(5));
}

#[test]
fn let_results_in_the_bound_value() {
    assert_eq!(value("let x = 5"), Object::Integer(5));
    assert_eq!(value("let x = 5; let y = x + 1"), Object::Integer(6));
}

#[test]
fn comparisons_between_integers() {
    assert_eq!(value("1 < 2"), Object::Boolean(true));
    assert_eq!(value("2 < 1"), Object::Boolean(false));
    assert_eq!(value("1 > 2"), Object::Boolean(false));
    assert_eq!(value("2 > 1"), Object::Boolean(true));
    assert_eq!(value("1 == 1"), Object::Boolean(true));
    assert_eq!(value("1 == 2"), Object::Boolean(false));
    assert_eq!(value("1 != 1"), Object::Boolean(false));
    assert_eq!(value("1 != 2"), Object::Boolean(true));
}

#[test]
fn operators_between_other_values_give_null() {
    assert_eq!(value("true == true"), Object::Null);
    assert_eq!(value("true + 1"), Object::Null);
    assert_eq!(value("1 + true"), Object::Null);
    assert_eq!(value("missing * 2"), Object::Null);
    assert_eq!(value("fn() { 1 } == fn() { 1 }"), Object::Null);
    assert_eq!(value("true / false"), Object::Null);
}

#[test]
fn division_rounds_toward_zero() {
    assert_eq!(value("7 / 2"), Object::Integer(3));
    assert_eq!(value("(0 - 7) / 2"), Object::Integer(-3));
    assert_eq!(value("7 / (0 - 2)"), Object::Integer(-3));
    assert_eq!(value("(0 - 7) / (0 - 2)"), Object::Integer(3));
    assert_eq!(value("-7 / 2"), Object::Integer(-3));
    assert_eq!(value("0 / 5"), Object::Integer(0));
    assert_eq!(value("6 / 3"), Object::Integer(2));
}

#[test]
fn division_by_zero_is_a_fault() {
    assert_eq!(run("1 / 0"), Err(Fault::DivisionByZero));
    assert_eq!(run("let x = 0; 10 / x"), Err(Fault::DivisionByZero));
    assert_eq!(run("0 / 0"), Err(Fault::DivisionByZero));
    assert_eq!(run("fn(d) { 1 / d }(0)"), Err(Fault::DivisionByZero));
}

#[test]
fn arithmetic_beyond_64_bits_is_a_fault() {
    assert_eq!(
        value("9223372036854775806 + 1"),
        Object::Integer(i64::MAX)
    );
    assert_eq!(run("9223372036854775807 + 1"), Err(Fault::Overflow));
    assert_eq!(
        value("-9223372036854775807 - 1"),
        Object::Integer(i64::MIN)
    );
    assert_eq!(run("-9223372036854775807 - 2"), Err(Fault::Overflow));
    assert_eq!(run("4611686018427387904 * 2"), Err(Fault::Overflow));
    assert_eq!(run("-(-9223372036854775807 - 1)"), Err(Fault::Overflow));
    assert_eq!(
        run("(-9223372036854775807 - 1) / -1"),
        Err(Fault::Overflow)
    );
    assert_eq!(
        value("(-9223372036854775807 - 1) / 1"),
        Object::Integer(i64::MIN)
    );
}

#[test]
fn a_call_with_too_few_arguments_is_a_fault() {
    assert_eq!(run("fn(x, y) { x }(1)"), Err(Fault::MissingArgument));
    assert_eq!(run("let f = fn(x) { 1 }; f()"), Err(Fault::MissingArgument));
}

#[test]
fn the_first_fault_met_is_the_result() {
    assert_eq!(run("1 / 0 + 9223372036854775807 * 2"), Err(Fault::DivisionByZero));
    assert_eq!(run("9223372036854775807 * 2 + 1 / 0"), Err(Fault::Overflow));
    assert_eq!(run("fn(x) { x }() + 1 / 0"), Err(Fault::MissingArgument));
    assert_eq!(run("fn(x, y) { x }(1 / 0)"), Err(Fault::DivisionByZero));
}

#[test]
fn a_fault_leaves_the_scope_as_it_was_at_that_moment() {
    let mut env = Environment::new();
    assert_eq!(
        run_in("let a = 1; let b = a / 0; let c = 3;", &mut env),
        Err(Fault::DivisionByZero)
    );
    assert_eq!(env.get("a"), Some(Object::Integer(1)));
    assert_eq!(env.get("b"), None);
    assert_eq!(env.get("c"), None);
    assert_eq!(
        run_in("let f = fn(x) { let inner = 1; x / 0 }; let d = 4; f(d)", &mut env),
        Err(Fault::DivisionByZero)
    );
    assert_eq!(env.get("d"), Some(Object::Integer(4)));
    assert_eq!(env.get("inner"), None);
    assert_eq!(env.get("x"), None);
    assert_eq!(
        run_in("if (true) { let e = 5; 9223372036854775807 + e }", &mut env),
        Err(Fault::Overflow)
    );
    assert_eq!(env.get("e"), Some(Object::Integer(5)));
    assert_eq!(run_in("a + d + e", &mut env), Ok(Object::Integer(10)));
}

#[test]
fn calls_nested_too_deep_are_a_fault() {
    let source = "let f = fn(g) { g(g) }; f(f)";
    assert_eq!(run(source), Err(Fault::DepthExceeded));
    let (program, _) = parse(source.to_string()).expect("every literal fits");
    assert_eq!(
        evaluate(&program, &mut Environment::new(), 0),
        Err(Fault::DepthExceeded)
    );
    assert_eq!(
        evaluate(&program, &mut Environment::new(), 3),
        Err(Fault::DepthExceeded)
    );
}

#[test]
fn the_depth_counts_nested_calls_only() {
    let (program, _) = parse("let id = fn(x) { x }; id(1) + id(2) + id(id(3))".to_string())
        .expect("every literal fits");
    assert_eq!(
        evaluate(&program, &mut Environment::new(), 0),
        Err(Fault::DepthExceeded)
    );
    assert_eq!(
        evaluate(&program, &mut Environment::new(), 1),
        Ok(Object::Integer(6))
    );
    let (flat, _) = parse("if (1 < 2) { if (2 < 3) { (1 + 2) * 3 } }".to_string())
        .expect("every literal fits");
    assert_eq!(
        evaluate(&flat, &mut Environment::new(), 0),
        Ok(Object::Integer(9))
    );
    let (deep, _) = parse(
        "let down = fn(f, n) { if (n == 0) { 0 } else { f(f, n - 1) } }; down(down, 20)"
            .to_string(),
    )
    .expect("every literal fits");
    assert_eq!(
        evaluate(&deep, &mut Environment::new(), 21),
        Ok(Object::Integer(0))
    );
    assert_eq!(
        evaluate(&deep, &mut Environment::new(), 20),
        Err(Fault::DepthExceeded)
    );
}

#[test]
fn recursion_through_an_argument() {
    assert_eq!(
        value(
            "let fact = fn(f, n) { if (n < 2) { return 1; } n * f(f, n - 1) }; fact(fact, 10)"
        ),
        Object::Integer(3628800)
    );
}

#[test]
fn eval_program_gives_the_value_of_a_program_without_faults() {
    let (program, errors) = parse("let x = 5; return x; 9".to_string()).expect("fits");
    assert!(errors.is_empty());
    let mut env = Environment::new();
    assert_eq!(eval_program(&program, &mut env), Object::Integer(5));
    assert_eq!(env.get("x"), Some(Object::Integer(5)));
    let (program, _) = parse("let add = fn(x, y) { x + y }; add(2, 3)".to_string()).expect("fits");
    assert_eq!(eval_program(&program, &mut env), Object::Integer(5));
    let (program, _) = parse("".to_string()).expect("fits");
    assert_eq!(eval_program(&program, &mut env), Object::Null);
}

#[test]
fn the_empty_program_is_null() {
    assert_eq!(value(""), Object::Null);
}

#[test]
fn a_function_literal_is_a_function_value() {
    match value("fn(a, b) { a }") {
        Object::Function(function) => {
            assert_eq!(function.parameters.len(), 2);
            assert_eq!(function.parameters[0].value, "a");
            assert_eq!(function.parameters[1].value, "b");
            assert_eq!(function.body.statements.len(), 1);
        }
        other => panic!("not a function: {:?}", other),
    }
}

#[test]
fn values_show_as_text() {
    assert_eq!(shown("5"), "5");
    assert_eq!(shown("-5"), "-5");
    assert_eq!(shown("0"), "0");
    assert_eq!(shown("1 < 2"), "true");
    assert_eq!(shown("1 > 2"), "false");
    assert_eq!(shown("missing"), "null");
    assert_eq!(shown("fn(x, y) { x + y }"), "fn(x, y) { ... }");
    assert_eq!(shown("fn() { 1 }"), "fn() { ... }");
    assert_eq!(shown("fn(only) { }"), "fn(only) { ... }");
    assert_eq!(Object::Integer(i64::MIN).to_string(), "-9223372036854775808");
    assert_eq!(
        Object::ReturnValue(Box::new(Object::Integer(3))).to_string(),
        "3"
    );
    assert_eq!(
        Object::ReturnValue(Box::new(Object::ReturnValue(Box::new(Object::Null)))).to_string(),
        "null"
    );
}

#[test]
fn objects_copy_and_compare() {
    let function = Object::Function(Function {
        parameters: vec![Identifier {
            token: TokenType::Ident("x".to_string()),
            value: "x".to_string(),
        }],
        body: BlockStatement {
            token: TokenType::LBrace,
            statements: vec![],
        },
    });
    assert_eq!(function.clone(), function);
    assert_eq!(Object::Integer(3).clone(), Object::Integer(3));
    assert_eq!(Object::Null.clone(), Object::Null);
    let wrapped = Object::ReturnValue(Box::new(Object::Boolean(true)));
    assert_eq!(wrapped.clone(), wrapped);
    assert_ne!(Object::Integer(1), Object::Boolean(true));
    assert_eq!(value("fn(x) { }"), function);
}

#[test]
fn an_environment_binds_and_overwrites() {
    let mut env = Environment::new();
    assert_eq!(env.get("x"), None);
    assert_eq!(env.set("x".to_string(), Object::Integer(1)), Object::Integer(1));
    assert_eq!(env.get("x"), Some(Object::Integer(1)));
    assert_eq!(env.get("y"), None);
    assert_eq!(env.set("x".to_string(), Object::Boolean(false)), Object::Boolean(false));
    assert_eq!(env.get("x"), Some(Object::Boolean(false)));
    assert_eq!(env.set("y".to_string(), Object::Null), Object::Null);
    assert_eq!(env.get("y"), Some(Object::Null));
    assert_eq!(env.get("x"), Some(Object::Boolean(false)));
    assert_eq!(env.get(""), None);
}
