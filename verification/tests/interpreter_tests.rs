//! End-to-end checks of the pipeline: canonical printing, evaluation and
//! the printer's fixed point on already-canonical input.
use monkey_rs::evaluator::eval;
use monkey_rs::lexer::op::{BinOp, CompOp, LogOp, NumOp, UnaryOp};
use monkey_rs::lexer::punctuator::Punctuator;
use monkey_rs::object::{Builtin, Environment, Object};
use monkey_rs::parser::parse;

fn render(input: &str) -> String {
    parse(input).unwrap().string()
}

fn run(input: &str) -> Object {
    let node = parse(input).unwrap();
    let mut env = Environment::new();
    let mut out: Vec<String> = Vec::new();
    eval(&node, &mut env, &mut out).unwrap()
}

#[test]
fn pretty_printing_is_fully_parenthesized() {
    assert_eq!(render("-a * b"), "((-a) * b)");
    assert_eq!(render("a + b * c + d / e - f"), "(((a + (b * c)) + (d / e)) - f)");
}

#[test]
fn arithmetic_pipeline_end_to_end() {
    match run("(5 + 10 * 2 + 15 / 3) * 2 + -10") {
        Object::Int(n) => assert_eq!(n, 50),
        o => panic!("expected 50, got {:?}", o),
    }
}

#[test]
fn truthiness_and_bang() {
    assert!(matches!(run("!5"), Object::Bool(false)));
    assert!(matches!(run("!!0"), Object::Bool(false)));
    assert!(matches!(run("!0"), Object::Bool(true)));
}

#[test]
fn control_flow_and_nested_returns() {
    assert!(matches!(run("if (1 > 2) { 10 } else { 20 }"), Object::Int(20)));
    assert!(matches!(
        run("let f = fn() { if (true) { if (true) { return 3; } } 9; }; f()"),
        Object::Int(3)
    ));
    assert!(matches!(
        run("if (10 > 1) { if (10 > 1) { return 10; } return 1; }"),
        Object::Int(10)
    ));
}

#[test]
fn closures_capture_their_definition_site() {
    assert!(matches!(
        run("let add = fn(x, y) { x + y; }; add(5 + 5, add(5, 5));"),
        Object::Int(20)
    ));
    assert!(matches!(
        run("let outer = fn(x) { fn(y) { x + y } }; let addthree = outer(3); addthree(4)"),
        Object::Int(7)
    ));
    assert!(matches!(
        run("let x = 1; let f = fn() { x }; let x = 2; f()"),
        Object::Int(2)
    ));
}

#[test]
fn collection_misses_yield_null_not_errors() {
    assert!(matches!(run("[1, 2, 3][3]"), Object::Null));
    assert!(matches!(run("[1, 2, 3][-1]"), Object::Null));
    assert!(matches!(run("{\"foo\": 5}[\"bar\"]"), Object::Null));
}

#[test]
fn printer_is_a_fixed_point_on_canonical_expressions() {
    let programs = [
        "a + b * c + d / e - f",
        "-a * b",
        "!(true == true)",
        "let foo = bar;",
        "return (x + y);",
        "[1, 2, add(3, 4)][1]",
        "{\"a\": 1, \"b\": (2 * 3)}",
        "first(rest([1, 2, 3]))",
        "\"hello\"",
    ];
    for p in programs {
        let once = render(p);
        let twice = render(once.as_str());
        assert_eq!(once, twice, "printing {} is not canonical", p);
    }
}

#[test]
fn arithmetic_wraps_like_the_machine() {
    assert!(matches!(
        run("9223372036854775807 + 1"),
        Object::Int(-9223372036854775808)
    ));
    assert!(matches!(
        run("0 - 9223372036854775807 - 1"),
        Object::Int(-9223372036854775808)
    ));
}

#[test]
fn hash_literals_evaluate_keys_and_values_in_order() {
    assert!(matches!(
        run("let k = \"a\"; {k: 1, \"b\": 2, k: 3}[\"a\"]"),
        Object::Int(3)
    ));
    assert_eq!(run("{\"a\": 1, \"b\": 2, \"a\": 3}").inspect(), "{a: 3, b: 2}");
}

#[test]
fn rendering_tables_match_their_source_spelling() {
    assert_eq!(NumOp::Add.as_str(), "+");
    assert_eq!(UnaryOp::Not.as_str(), "!");
    assert_eq!(CompOp::LessThanOrEqual.as_str(), "<=");
    assert_eq!(LogOp::And.as_str(), "&&");
    assert_eq!(BinOp::Comp(CompOp::NotEqual).as_str(), "!=");
    assert_eq!(
        Punctuator::GreaterThanOrEq.as_binop(),
        Some(BinOp::Comp(CompOp::GreaterThanOrEqual))
    );
    assert_eq!(Punctuator::Semicolon.as_binop(), None);
    assert_eq!(monkey_rs::text::i64_string(-9223372036854775808), "-9223372036854775808");
    assert_eq!(monkey_rs::text::i64_string(0), "0");
    assert_eq!(monkey_rs::text::u64_string(901), "901");
    assert_eq!(monkey_rs::text::bool_string(false), "false");
}

#[test]
fn builtins_are_names_before_bindings() {
    assert!(matches!(Builtin::lookup("push"), Some(Object::Builtin(Builtin::Push))));
    assert!(Builtin::lookup("shove").is_none());
    assert_eq!(Builtin::Puts.string(), "puts");
}
