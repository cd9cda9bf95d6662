use monkey_rs::evaluator::eval;
use monkey_rs::object::{Environment, Object};
use monkey_rs::parser;

fn test_eval(input: &str) -> Object {
    match parser::parse(input) {
        Ok(node) => {
            let mut env = Environment::new();
            let mut out: Vec<String> = Vec::new();
            eval(&node, &mut env, &mut out).expect(input)
        },
        Err(e) => panic!("error {:?} on input {}", e, input),
    }
}

fn test_eval_err(input: &str) -> String {
    match parser::parse(input) {
        Ok(node) => {
            let mut env = Environment::new();
            let mut out: Vec<String> = Vec::new();
            match eval(&node, &mut env, &mut out) {
                Ok(obj) => panic!("expected an error for {} but got {:?}", input, obj),
                Err(e) => e.message,
            }
        },
        Err(e) => panic!("error {:?} on input {}", e, input),
    }
}

fn test_integer_object(obj: &Object, expected: i64) {
    match obj {
        Object::Int(i) => assert_eq!(i, &expected),
        _ => panic!("expected integer object, but got {:?}", obj),
    }
}

fn test_bool_object(obj: &Object, expected: bool) {
    match obj {
        Object::Bool(i) => assert_eq!(i, &expected),
        _ => panic!("expected bool object, but got {:?}", obj),
    }
}

fn test_null_object(obj: &Object) {
    match obj {
        Object::Null => {},
        _ => panic!("expected bool object, but got {:?}", obj),
    }
}

#[test]
fn eval_integer_expression() {
    let tests = [
        ("5", 5),
        ("10", 10),
        ("-5", -5),
        ("-10", -10),
        ("5 + 5 + 5 + 5 - 10", 10),
        ("2 * 2 * 2 * 2 * 2", 32),
        ("-50 + 100 + -50", 0),
        ("5 * 2 + 10", 20),
        ("5 + 2 * 10", 25),
        ("20 + 2 * -10", 0),
        ("50 / 2 * 2 + 10", 60),
        ("2 * (5 + 10)", 30),
        ("3 * 3 * 3 + 10", 37),
        ("3 * (3 * 3) + 10", 37),
        ("(5 + 10 * 2 + 15 / 3) * 2 + -10", 50),
    ];

    for t in tests {
        let evaluated = test_eval(t.0);
        test_integer_object(&evaluated, t.1);
    }
}

#[test]
fn eval_boolean_expression() {
    let tests = [
        ("true", true),
        ("false", false),
        ("1 < 2", true),
        ("1 > 2", false),
        ("1 < 1", false),
        ("1 > 1", false),
        ("1 == 1", true),
        ("1 != 1", false),
        ("1 == 2", false),
        ("1 != 2", true),
        ("true == true", true),
        ("false == false", true),
        ("true == false", false),
        ("true != false", true),
        ("false != true", true),
        ("(1 < 2) == true", true),
        ("(1 < 2) == false", false),
        ("(1 > 2) == true", false),
        ("(1 > 2) == false", true),
    ];

    for t in tests {
        let evaluated = test_eval(t.0);
        test_bool_object(&evaluated, t.1);
    }
}

#[test]
fn test_bang_operator() {
    let tests = [
        ("!true", false),
        ("!false", true),
        ("!5", false),
        ("!!true", true),
        ("!!false", false),
        ("!!5", true),
        ("!!0", false),
    ];
    for t in tests {
        let evaluated = test_eval(t.0);
        test_bool_object(&evaluated, t.1);
    }
}

#[test]
fn eval_bang_of_zero_is_true() {
    test_bool_object(&test_eval("!0"), true);
}

#[test]
fn eval_if_else_expressions() {
    test_integer_object(&test_eval("if (1 > 2) { 10 } else { 20 }"), 20);
    test_integer_object(&test_eval("if (true) { 10 }"), 10);
    test_integer_object(&test_eval("if (1 < 2) { 10 }"), 10);
    test_null_object(&test_eval("if (false) { 10 }"));
    test_null_object(&test_eval("if (0) { 10 }"));
}

#[test]
fn eval_return_statements() {
    let tests = [
        ("return 10;", 10),
        ("return 10; 9;", 10),
        ("return 2 * 5; 9;", 10),
        ("9; return 2 * 5; 9;", 10),
        (
            "if (10 > 1) { if (10 > 1) { return 10; } return 1; }",
            10,
        ),
    ];
    for t in tests {
        test_integer_object(&test_eval(t.0), t.1);
    }
}

#[test]
fn eval_let_statements() {
    let tests = [
        ("let a = 5; a;", 5),
        ("let a = 5 * 5; a;", 25),
        ("let a = 5; let b = a; b;", 5),
        ("let a = 5; let b = a; let c = a + b + 5; c;", 15),
        ("let a = 1; let a = a + 1; a;", 2),
    ];
    for t in tests {
        test_integer_object(&test_eval(t.0), t.1);
    }
}

#[test]
fn eval_closures_keep_their_defining_scope() {
    test_integer_object(
        &test_eval("let add = fn(x, y) { x + y; }; add(5 + 5, add(5, 5));"),
        20,
    );
    test_integer_object(
        &test_eval(
            "let newAdder = fn(x) { fn(y) { x + y }; }; let addTwo = newAdder(2); addTwo(2);",
        ),
        4,
    );
    test_integer_object(&test_eval("fn(x) { x; }(5)"), 5);
}

#[test]
fn eval_string_concatenation() {
    match test_eval("\"Hello\" + \" \" + \"World!\"") {
        Object::Str(s) => assert_eq!(s, "Hello World!"),
        o => panic!("expected string, got {:?}", o),
    }
}

#[test]
fn eval_array_and_hash_indexing() {
    test_integer_object(&test_eval("[1, 2, 3][0]"), 1);
    test_integer_object(&test_eval("[1, 2, 3][1 + 1]"), 3);
    test_null_object(&test_eval("[1, 2, 3][3]"));
    test_null_object(&test_eval("[1, 2, 3][-1]"));
    test_integer_object(&test_eval("{\"one\": 1, \"two\": 2}[\"two\"]"), 2);
    test_null_object(&test_eval("{\"foo\": 5}[\"bar\"]"));
    test_integer_object(&test_eval("{true: 1, 2: 4}[2]"), 4);
    test_integer_object(&test_eval("{\"a\": 1, \"a\": 9}[\"a\"]"), 9);
}

#[test]
fn eval_builtin_functions() {
    test_integer_object(&test_eval("len(\"\")"), 0);
    test_integer_object(&test_eval("len(\"four\")"), 4);
    test_integer_object(&test_eval("len([1, 2, 3])"), 3);
    test_integer_object(&test_eval("first([7, 8])"), 7);
    test_null_object(&test_eval("first([])"));
    test_integer_object(&test_eval("last([7, 8])"), 8);
    test_null_object(&test_eval("last([])"));
    test_integer_object(&test_eval("len(rest([1, 2, 3]))"), 2);
    test_integer_object(&test_eval("rest([1, 2, 3])[0]"), 2);
    test_integer_object(&test_eval("len(rest([1]))"), 0);
    test_integer_object(&test_eval("push([1], 2)[1]"), 2);
    test_integer_object(&test_eval("let a = [1, 2]; let b = push(a, 3); len(a)"), 2);
    test_integer_object(&test_eval("let a = [1, 2]; len(push(a, 3))"), 3);
}

#[test]
fn eval_puts_reports_lines_and_yields_null() {
    let node = parser::parse("puts(1, true, \"x\"); 7").unwrap();
    let mut env = Environment::new();
    let mut out: Vec<String> = Vec::new();
    let r = eval(&node, &mut env, &mut out).unwrap();
    test_integer_object(&r, 7);
    assert_eq!(out, vec!["1".to_string(), "true".to_string(), "x".to_string()]);
}

#[test]
fn eval_error_handling() {
    assert_eq!(test_eval_err("5 + true;"), "type mismatch: INTEGER + BOOLEAN");
    assert_eq!(test_eval_err("5 + true; 5;"), "type mismatch: INTEGER + BOOLEAN");
    assert_eq!(test_eval_err("-true"), "unknown operator: -BOOLEAN");
    assert_eq!(test_eval_err("true + false;"), "unknown operator: true + false");
    assert_eq!(test_eval_err("\"a\" - \"b\""), "unknown operator: STRING - STRING");
    assert_eq!(test_eval_err("foobar"), "identifier not found: foobar");
    assert_eq!(test_eval_err("5();"), "INTEGER is not a function");
    assert_eq!(test_eval_err("fn(x) { x; }(1, 2)"), "wrong number of arguments: want=1, got=2");
    assert_eq!(test_eval_err("5[0]"), "index operator not supported: INTEGER");
    assert_eq!(test_eval_err("{\"a\": 1}[[1]]"), "unusable as hash key: ARRAY");
    assert_eq!(test_eval_err("{[1]: 1}"), "unusable as hash key: ARRAY");
    assert_eq!(test_eval_err("5 / 0"), "division by zero");
    assert_eq!(test_eval_err("len(1)"), "object INTEGER not supported as an argument for len");
    assert_eq!(test_eval_err("len(\"a\", \"b\")"), "len takes only 1 array or string argument");
}

#[test]
fn len_counts_the_bytes_of_a_string() {
    test_integer_object(&test_eval("len(\"four\")"), 4);
    let two_byte = format!("len(\"{}\")", '\u{00e9}');
    test_integer_object(&test_eval(two_byte.as_str()), 2);
    let three_byte = format!("len(\"{}{}\")", 'a', '\u{20ac}');
    test_integer_object(&test_eval(three_byte.as_str()), 4);
}

#[test]
fn eval_truncating_division() {
    test_integer_object(&test_eval("7 / 2"), 3);
    test_integer_object(&test_eval("-7 / 2"), -3);
    test_integer_object(&test_eval("7 / -2"), -3);
    test_integer_object(&test_eval("-7 / -2"), 3);
}

#[test]
fn eval_environment_is_kept_between_runs() {
    let mut env = Environment::new();
    let mut out: Vec<String> = Vec::new();
    let node = parser::parse("let counter = 41;").unwrap();
    eval(&node, &mut env, &mut out).unwrap();
    let node = parser::parse("counter + 1").unwrap();
    let r = eval(&node, &mut env, &mut out).unwrap();
    test_integer_object(&r, 42);
}

#[test]
fn inspect_renders_canonical_forms() {
    assert_eq!(test_eval("[1, \"x\", true]").inspect(), "[1, x, true]");
    assert_eq!(test_eval("{\"a\": 1}").inspect(), "{a: 1}");
    assert_eq!(test_eval("if (false) { 1 }").inspect(), "null");
    assert_eq!(test_eval("fn(x) { x; }").inspect(), "fn(x) {\nx\n}");
    assert_eq!(test_eval("len").inspect(), "len");
    assert_eq!(test_eval("-0 - 17").inspect(), "-17");
}
