use monkey::ast::{Node, Statement};
use monkey::environment::Environment;
use monkey::errors::EvalErr;
use monkey::eval::eval;
use monkey::lexer::Lexer;
use monkey::object::Object;
use monkey::parser::Parser;

fn run(input: &str) -> Result<Object, EvalErr> {
    let (_, r) = run_with_store(input);
    r
}

fn run_with_store(input: &str) -> (Environment, Result<Object, EvalErr>) {
    let l = Lexer::new(input);
    let mut p = Parser::new(l);
    let program = p.parse_program().unwrap();
    let mut env = Environment::new();
    let r = eval(&Node::Statement(Statement::Program(program)), &mut env, 0);
    (env, r)
}

#[test]
fn precedence_scenario() {
    assert_eq!(run("5 + 5 * 2").unwrap(), Object::Number(15));
}

#[test]
fn else_if_chain_scenario() {
    assert_eq!(
        run("if (1 > 2) { 10 } else if (2 > 1) { 15 } else { 20 }").unwrap(),
        Object::Number(15)
    );
}

#[test]
fn closures_scenario() {
    assert_eq!(
        run("let newAdder = fn(x) { fn(y) { x + y } }; let addTwo = newAdder(2); addTwo(3)")
            .unwrap(),
        Object::Number(5)
    );
}

#[test]
fn nested_return_scenario() {
    assert_eq!(
        run("if (10 > 1) { if (10 > 1) { return 10; } return 1; } return 5;").unwrap(),
        Object::Number(10)
    );
}

#[test]
fn index_assignment_scenario() {
    assert_eq!(
        run("let a = [1,2,3]; a[0] = 9; a[0] + a[1] + a[2]").unwrap(),
        Object::Number(14)
    );
}

#[test]
fn string_repetition_scenario() {
    assert_eq!(
        run(r#""hello" * 3"#).unwrap(),
        Object::String("hellohellohello".to_string())
    );
    assert_eq!(
        run(r#"3 * "ab""#).unwrap(),
        Object::String("ababab".to_string())
    );
    assert_eq!(run(r#""x" * 0"#).unwrap(), Object::String(String::new()));
    assert_eq!(run(r#""x" * -2"#).unwrap(), Object::String(String::new()));
}

#[test]
fn let_then_read_gives_bound_value() {
    assert_eq!(run("let x = 7; x").unwrap(), Object::Number(7));
    assert_eq!(run("let x = 7; x = 8; x").unwrap(), Object::Number(8));
    assert!(matches!(
        run("let x = 7; let x = 8"),
        Err(EvalErr::AlreadyInitialized(_))
    ));
}

#[test]
fn closures_capture_by_reference() {
    assert_eq!(
        run("let a = 1; let f = fn() { a }; a = 2; f()").unwrap(),
        Object::Number(2)
    );
}

#[test]
fn return_never_escapes_a_call() {
    assert_eq!(
        run("let f = fn() { return 3; 4 }; f() + 1").unwrap(),
        Object::Number(4)
    );
}

#[test]
fn arrays_alias_one_buffer() {
    assert_eq!(
        run("let a = [1]; let b = a; push(b, 2); len(a)").unwrap(),
        Object::Number(2)
    );
}

#[test]
fn eval_is_deterministic_on_same_source() {
    let src = "let a = [1,2]; push(a, 3); let f = fn(x) { x * len(a) }; f(4)";
    assert_eq!(run(src).unwrap(), run(src).unwrap());
}

#[test]
fn string_operations() {
    assert_eq!(
        run(r#""foo" + "bar""#).unwrap(),
        Object::String("foobar".to_string())
    );
    assert_eq!(run(r#""abc" < "abd""#).unwrap(), Object::Boolean(true));
    assert_eq!(run(r#""b" > "a""#).unwrap(), Object::Boolean(true));
    assert_eq!(run(r#""a" == "a""#).unwrap(), Object::Boolean(true));
    assert_eq!(run(r#""a" != "b""#).unwrap(), Object::Boolean(true));
}

#[test]
fn truthiness_coercions() {
    assert_eq!(run(r#"if ("") { 1 } else { 2 }"#).unwrap(), Object::Number(2));
    assert_eq!(run(r#"if ("x") { 1 } else { 2 }"#).unwrap(), Object::Number(1));
    assert_eq!(run("if (0) { 1 } else { 2 }").unwrap(), Object::Number(2));
    assert_eq!(run("if (7) { 1 } else { 2 }").unwrap(), Object::Number(1));
    assert_eq!(run("!0").unwrap(), Object::Boolean(true));
}

#[test]
fn builtin_pop_and_pop_left() {
    assert_eq!(
        run("let a = [1,2,3]; pop(a)").unwrap(),
        Object::Number(3)
    );
    assert_eq!(
        run("let a = [1,2,3]; pop(a); len(a)").unwrap(),
        Object::Number(2)
    );
    assert_eq!(
        run("let a = [1,2,3]; pop_left(a)").unwrap(),
        Object::Number(1)
    );
    assert_eq!(
        run("let a = [1,2,3]; pop_left(a); a[0]").unwrap(),
        Object::Number(2)
    );
    assert_eq!(run("let a = []; pop(a)").unwrap(), Object::Null);
    assert_eq!(run("let a = []; pop_left(a)").unwrap(), Object::Null);
    assert_eq!(
        run("let a = [1]; push(a, 9)").unwrap(),
        Object::Number(9)
    );
}

#[test]
fn error_variants() {
    assert!(matches!(run("5 / 0"), Err(EvalErr::DivideByZero)));
    assert!(matches!(
        run("missing"),
        Err(EvalErr::IdentifierNotFound(_))
    ));
    assert!(matches!(run("-true"), Err(EvalErr::MinusPrefix(_))));
    assert!(matches!(
        run("true + false"),
        Err(EvalErr::PlusError(_, _))
    ));
    assert!(matches!(
        run(r#"5 - "a""#),
        Err(EvalErr::SubstractError(_, _))
    ));
    assert!(matches!(
        run("true * false"),
        Err(EvalErr::MultiplyError(_, _))
    ));
    assert!(matches!(
        run(r#""a" / "b""#),
        Err(EvalErr::DivideError(_, _))
    ));
    assert!(matches!(run("true < false"), Err(EvalErr::Order(_, _))));
    assert!(matches!(run(r#"1 == "1""#), Err(EvalErr::Equal(_, _))));
    assert!(matches!(run("5 = 6"), Err(EvalErr::AssignLHS(_))));
    assert!(matches!(
        run("let a = [1]; a[3]"),
        Err(EvalErr::IndexOutOfBounds(3, 1))
    ));
    assert!(matches!(
        run("let a = [1]; a[0 - 1]"),
        Err(EvalErr::IndexOutOfBounds(-1, 0))
    ));
    assert!(matches!(run("5[0]"), Err(EvalErr::IndexArray(_))));
    assert!(matches!(
        run(r#"let a = [1]; a["x"]"#),
        Err(EvalErr::CoerceObject(_, _))
    ));
    assert!(matches!(
        run("let f = fn(a, b) { a }; f(1)"),
        Err(EvalErr::ArgsCount(2, 1))
    ));
    assert!(matches!(
        run("let f = fn(a) { a }; f(1, 2)"),
        Err(EvalErr::ArgsCount(1, 2))
    ));
    assert!(matches!(
        run("len(1)"),
        Err(EvalErr::BuiltinArgsType(_, _, _))
    ));
    assert!(matches!(run("len()"), Err(EvalErr::ArgsCount(1, 0))));
    assert!(matches!(run("5(1)"), Err(EvalErr::NotImplemented(_))));
    assert!(matches!(
        run("let f = fn(a, a) { a }; f(1, 2)"),
        Err(EvalErr::AlreadyInitialized(_))
    ));
}

#[test]
fn len_counts_characters() {
    assert_eq!(run(r#"len("héllo")"#).unwrap(), Object::Number(5));
    assert_eq!(run("len([1, 2, 3])").unwrap(), Object::Number(3));
}

#[test]
fn builtins_are_named_values() {
    assert_eq!(
        run("len").unwrap(),
        Object::Builtin("len".to_string())
    );
    assert_eq!(
        run("let len = 3; len").unwrap(),
        Object::Number(3)
    );
}

#[test]
fn wrapping_arithmetic() {
    assert_eq!(
        run("9223372036854775806 + 1").unwrap(),
        Object::Number(9223372036854775807)
    );
    assert_eq!(
        run("9223372036854775807 + 1").unwrap(),
        Object::Number(-9223372036854775808)
    );
    assert_eq!(run("7 / 2").unwrap(), Object::Number(3));
    assert_eq!(run("0 - 7 / 2").unwrap(), Object::Number(-3));
}

#[test]
fn value_rendering() {
    assert_eq!(run("5").unwrap().to_string(), "5");
    assert_eq!(run("0 - 5").unwrap().to_string(), "-5");
    assert_eq!(run("true").unwrap().to_string(), "true");
    assert_eq!(run(r#""hi""#).unwrap().to_string(), "hi");
    assert_eq!(run("len").unwrap().to_string(), "builtins(len)");
    assert_eq!(
        run("fn(a, b) { a + b; }").unwrap().to_string(),
        "fn(a, b) {(a + b)}"
    );
    let missing = run("if (false) { 1 }").unwrap();
    assert_eq!(missing.to_string(), "Null");
}

#[test]
fn unicode_identifiers() {
    assert_eq!(run("let caf\u{e9} = 41; caf\u{e9} + 1").unwrap(), Object::Number(42));
    assert_eq!(run("let if\u{e9} = 3; if\u{e9}").unwrap(), Object::Number(3));
}

#[test]
fn array_rendering_follows_the_store() {
    let (st, r) = run_with_store(r#"[1, [2, 3], "x", true]"#);
    assert_eq!(st.render_value(&r.unwrap(), 8), "[1, [2, 3], x, true]");

    let (st, r) = run_with_store("[]");
    assert_eq!(st.render_value(&r.unwrap(), 8), "[]");

    let (st, r) = run_with_store("7");
    assert_eq!(st.render_value(&r.unwrap(), 8), "7");

    // a self-referential array stops at the depth bound
    let (st, r) = run_with_store("let a = [1]; push(a, a); a");
    assert_eq!(st.render_value(&r.unwrap(), 3), "[1, [1, [1, [...]]]]");
}
