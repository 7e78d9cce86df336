use monkey::ast::Program;
use monkey::errors::ParseErr;
use monkey::lexer::Lexer;
use monkey::parser::Parser;
use monkey::render::NodeTrait;

fn parse(input: &str) -> Result<Program, ParseErr> {
    let l = Lexer::new(input);
    let mut p = Parser::new(l);
    p.parse_program()
}

#[test]
fn test_parser() {
    let let_inputs = vec![
        ("let x = 1+ 5 +10;", "let", "x", "((1 + 5) + 10)"),
        ("let y = a + 10 * 2;", "let", "y", "(a + (10 * 2))"),
        ("let foobar = 838383;", "let", "foobar", "838383"),
    ];
    let return_inputs = vec![
        ("return 5+10;", "return", "(5 + 10)"),
        ("return a + 10 * 2;", "return", "(a + (10 * 2))"),
        ("return 838383;", "return", "838383"),
    ];

    for &(input, keyword, ident, val) in let_inputs.iter() {
        let p = parse(input).unwrap();
        let let_stmt = p.statements[0].to_let().unwrap();
        assert_eq!(let_stmt.token_literal(), keyword.to_string());
        assert_eq!(let_stmt.name.0, ident.to_string());
        assert_eq!(let_stmt.value.to_str(), val.to_string());
    }
    for &(input, keyword, val) in return_inputs.iter() {
        let p = parse(input).unwrap();
        let exp = p.statements[0].to_return().unwrap();
        assert_eq!(exp.token_literal(), keyword.to_string());
        assert_eq!(exp.expression.as_ref().unwrap().to_str(), val.to_string());
    }
}

#[test]
fn test_identifier_expression() {
    let p = parse("foobar;").unwrap();
    let exp = p.statements[0].to_exp_stmt().unwrap();
    assert_eq!(exp.token_literal(), "foobar".to_string());
    assert_eq!(exp.to_str(), "foobar".to_string());
    assert_eq!(
        exp.expression.as_ref().unwrap().to_ident().unwrap().0,
        "foobar"
    );
}

#[test]
fn test_int_expression() {
    let p = parse("5;").unwrap();
    let exp = p.statements[0].to_exp_stmt().unwrap();
    assert_eq!(exp.token_literal(), "5".to_string());
    assert_eq!(exp.to_str(), "5".to_string());
    assert_eq!(exp.expression.as_ref().unwrap().to_num().unwrap(), 5);
}

#[test]
fn test_prefix_expressions() {
    let inputs = vec![("!5;", "!", 5), ("-15;", "-", 15)];

    for (input, operator, value) in inputs.into_iter() {
        let p = parse(input).unwrap();
        let exp = p.statements[0].to_exp_stmt().unwrap();
        let prefix = exp.expression.as_ref().unwrap().to_prefix().unwrap();
        assert_eq!(prefix.token.literal(), operator.to_string());
        assert_eq!(prefix.right.to_str(), value.to_string());
    }
}

#[test]
fn test_infix_expressions() {
    let inputs = vec![
        ("5 + 5;", 5, "+", 5),
        ("5 - 5;", 5, "-", 5),
        ("5 * 5;", 5, "*", 5),
        ("5 / 5;", 5, "/", 5),
        ("5 > 5;", 5, ">", 5),
        ("5 < 5;", 5, "<", 5),
        ("5 == 5;", 5, "==", 5),
        ("5 != 5;", 5, "!=", 5),
    ];

    for (input, left_value, operator, right_value) in inputs.into_iter() {
        let p = parse(input).unwrap();
        let exp = p.statements[0].to_exp_stmt().unwrap();
        let infix = exp.expression.as_ref().unwrap().to_infix().unwrap();
        assert_eq!(infix.token_literal(), operator.to_string());
        assert_eq!(infix.left.to_str(), left_value.to_string());
        assert_eq!(infix.right.to_str(), right_value.to_string());
    }
}

#[test]
fn test_operator_precedence_parsing() {
    let tests = vec![(
        "3 + 4 * 5 == 3 * 1 + 4 * 5",
        "((3 + (4 * 5)) == ((3 * 1) + (4 * 5)))",
    )];

    for &(input, expected) in tests.iter() {
        let p = parse(input).unwrap();
        let exp = p.statements[0].to_exp_stmt().unwrap();
        assert_eq!(exp.to_str(), expected)
    }
}

#[test]
fn test_group_expression() {
    let tests = vec![
        ("1 + (2 + 3) + 4", "((1 + (2 + 3)) + 4)"),
        ("(5 + 5) * 2", "((5 + 5) * 2)"),
        ("2 / (5 + 5)", "(2 / (5 + 5))"),
        ("-(5 + 5)", "(-(5 + 5))"),
        ("!(true == true)", "(!(true == true))"),
    ];

    for &(input, expected) in tests.iter() {
        let p = parse(input).unwrap();
        let exp = p.statements[0].to_exp_stmt().unwrap();
        assert_eq!(exp.to_str(), expected)
    }
}

#[test]
fn test_if_expression() {
    let input = r#"
        if (x < y) {
            let x = 1;
            return x;
        } else {
           let y = 1;
           return y;
        }
        "#;

    let p = parse(input).unwrap();
    let exp = p.statements[0].to_exp_stmt().unwrap();
    let if_exp = exp.expression.as_ref().unwrap().to_if().unwrap();
    assert_eq!(if_exp.condition.to_str(), "(x < y)");
    assert_eq!(if_exp.consequence.to_str(), "{let x = 1; return x;}");
    assert_eq!(
        if_exp.alternative.as_ref().unwrap().to_str(),
        "{let y = 1; return y;}"
    );
    assert_eq!(
        if_exp.to_str(),
        "if (x < y) {let x = 1; return x;} else {let y = 1; return y;}"
    );
}

#[test]
fn test_function_literal_parsing() {
    let v1: Vec<String> = vec![];
    let v2 = vec!["x".to_string(), "y".to_string(), "z".to_string()];
    let inputs = vec![
        ("fn() { }", &v1, "{}"),
        ("fn(x, y, z) { x + y * z; }", &v2, "{(x + (y * z))}"),
    ];

    for &(input, parameters, block_expect) in inputs.iter() {
        let p = parse(input).unwrap();
        let exp = p.statements[0].to_exp_stmt().unwrap();
        let fn_exp = exp.expression.as_ref().unwrap().to_function().unwrap();
        assert_eq!(fn_exp.body.to_str(), block_expect);
        let names: Vec<String> = fn_exp.parameters.iter().map(|x| x.0.clone()).collect();
        assert_eq!(&names, parameters);
    }
}

#[test]
fn test_function_parameter_parsing() {
    let v1 = vec!["1", "(2 * 3)", "(4 + 5)"];
    let v2 = vec!["(((a + b) + ((c * d) / f)) + g)"];
    let v3 = vec!["a", "b", "1", "(2 * 3)", "(4 + 5)", "add(6, (7 * 8))"];
    let tests = vec![
        (
            "fn(a,b,c){a+b+c}(1,2*3, 4+5);",
            &v1,
            "fn(a, b, c) {((a + b) + c)}(1, (2 * 3), (4 + 5))",
        ),
        (
            "add(a + b + c * d / f + g)",
            &v2,
            "add((((a + b) + ((c * d) / f)) + g))",
        ),
        (
            "add(a, b, 1, 2 * 3, 4 + 5, add(6, 7 * 8))",
            &v3,
            "add(a, b, 1, (2 * 3), (4 + 5), add(6, (7 * 8)))",
        ),
    ];

    for &(input, expected_args, expected_fn_call) in tests.iter() {
        let p = parse(input).unwrap();
        let exp = p.statements[0].to_exp_stmt().unwrap();
        let call = exp.expression.as_ref().unwrap().to_call().unwrap();
        assert_eq!(call.to_str(), expected_fn_call);
        for (idx, &e) in expected_args.iter().enumerate() {
            assert_eq!(call.arguments[idx].to_str(), e);
        }
    }
}

#[test]
fn parser_rejects_bad_let() {
    assert!(parse("let = 5;").is_err());
    assert!(parse("let x 5;").is_err());
}

#[test]
fn parser_rejects_unclosed_group() {
    assert!(parse("(1 + 2").is_err());
}

#[test]
fn parser_rejects_unclosed_block() {
    assert!(parse("if (x) { let y = 1;").is_err());
}

#[test]
fn parser_rejects_bad_array() {
    assert!(parse("let x = [1, 2,];").is_err());
    assert!(parse("let x = [1; 2];").is_err());
}

#[test]
fn parser_rejects_bad_else() {
    assert!(parse("if (x) { 1 } else 2").is_err());
}

#[test]
fn parser_index_assignment_shape() {
    let p = parse("a[0] = 9;").unwrap();
    let re = p.statements[0].to_reassign().unwrap();
    assert_eq!(re.lhs.to_str(), "a[0]");
    assert_eq!(re.value.to_str(), "9");
}

#[test]
fn parser_round_trip_reparses_equal() {
    let inputs = vec![
        "3 + 4 * 5 == 3 * 1 + 4 * 5",
        "-(5 + 5)",
        "fn(a, b) { a + b; }(1, 2)",
        "[1, (2 * 3), x][0]",
        "if (x < y) { x } else { y }",
    ];
    for input in inputs {
        let p1 = parse(input).unwrap();
        let exp1 = p1.statements[0].to_exp_stmt().unwrap();
        let printed = exp1.to_str();
        let p2 = parse(&printed).unwrap();
        let exp2 = p2.statements[0].to_exp_stmt().unwrap();
        assert_eq!(exp2.to_str(), printed);
    }
}
