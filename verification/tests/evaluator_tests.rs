//! End-to-end evaluation: source in, runtime value out.

use pua_lang::ast::{BlockStmt, Expr, Ident, Infix, Literal, Stmt};
use pua_lang::evaluator::builtins::new_builtins;
use pua_lang::evaluator::env::Env;
use pua_lang::evaluator::object::Object;
use pua_lang::evaluator::Evaluator;
use pua_lang::lexer::Lexer;
use pua_lang::parser::Parser;

fn eval(input: &str) -> Option<Object> {
    let mut parser = Parser::new(Lexer::new(input));
    let program = parser.parse();
    Evaluator::new(Env::from(new_builtins())).eval(program)
}

#[test]
fn test_int_expr() {
    let tests = vec![
        ("5", Some(Object::Int(5))),
        ("10", Some(Object::Int(10))),
        ("-5", Some(Object::Int(-5))),
        ("-10", Some(Object::Int(-10))),
        ("+5", Some(Object::Int(5))),
        ("+10", Some(Object::Int(10))),
        ("+(-5)", Some(Object::Int(-5))),
        ("+(-10)", Some(Object::Int(-10))),
        ("5 + 5 + 5 + 5 - 10", Some(Object::Int(10))),
        ("2 * 2 * 2 * 2 * 2", Some(Object::Int(32))),
        ("-50 + 100 + -50", Some(Object::Int(0))),
        ("5 * 2 + 10", Some(Object::Int(20))),
        ("5 + 2 * 10", Some(Object::Int(25))),
        ("20 + 2 * -10", Some(Object::Int(0))),
        ("50 / 2 * 2 + 10", Some(Object::Int(60))),
        ("2 * (5 + 10)", Some(Object::Int(30))),
        ("3 * 3 * 3 + 10", Some(Object::Int(37))),
        ("3 * (3 * 3) + 10", Some(Object::Int(37))),
        ("(5 + 10 * 2 + 15 / 3) * 2 + -10", Some(Object::Int(50))),
    ];
    for (input, expect) in tests {
        assert_eq!(expect, eval(input));
    }
}

#[test]
fn test_string_expr() {
    let input = "\"Hello World!\"";
    assert_eq!(Some(Object::String(String::from("Hello World!"))), eval(input));
}

#[test]
fn test_string_concatenation() {
    let input = "\"Hello\" + \" \" + \"World!\"";
    assert_eq!(Some(Object::String(String::from("Hello World!"))), eval(input));
}

#[test]
fn test_boolean_expr() {
    let tests = vec![
        ("true", Some(Object::Bool(true))),
        ("false", Some(Object::Bool(false))),
        ("1 < 2", Some(Object::Bool(true))),
        ("1 > 2", Some(Object::Bool(false))),
        ("1 < 1", Some(Object::Bool(false))),
        ("1 > 1", Some(Object::Bool(false))),
        ("1 >= 1", Some(Object::Bool(true))),
        ("1 <= 1", Some(Object::Bool(true))),
        ("1 >= 2", Some(Object::Bool(false))),
        ("1 <= 1", Some(Object::Bool(true))),
        ("2 <= 1", Some(Object::Bool(false))),
        ("1 == 1", Some(Object::Bool(true))),
        ("1 != 1", Some(Object::Bool(false))),
        ("1 == 2", Some(Object::Bool(false))),
        ("1 != 2", Some(Object::Bool(true))),
    ];
    for (input, expect) in tests {
        assert_eq!(expect, eval(input));
    }
}

#[test]
fn test_array_literal() {
    let input = "[1, 2 * 2, 3 + 3]";
    assert_eq!(
        Some(Object::Array(vec![Object::Int(1), Object::Int(4), Object::Int(6)])),
        eval(input),
    );
}

#[test]
fn test_array_index_expr() {
    let tests = vec![
        ("[1, 2, 3][0]", Some(Object::Int(1))),
        ("[1, 2, 3][1]", Some(Object::Int(2))),
        ("let i = 0; [1][i]", Some(Object::Int(1))),
        ("[1, 2, 3][1 + 1];", Some(Object::Int(3))),
        ("let myArray = [1, 2, 3]; myArray[2];", Some(Object::Int(3))),
        (
            "let myArray = [1, 2, 3]; myArray[0] + myArray[1] + myArray[2];",
            Some(Object::Int(6)),
        ),
        (
            "let myArray = [1, 2, 3]; let i = myArray[0]; myArray[i];",
            Some(Object::Int(2)),
        ),
        ("[1, 2, 3][3]", Some(Object::Null)),
        ("[1, 2, 3][-1]", Some(Object::Null)),
    ];
    for (input, expect) in tests {
        assert_eq!(expect, eval(input));
    }
}

#[test]
fn test_hash_literal() {
    let input = r#"
let two = "two";
{
  "one": 10 - 9,
  two: 1 + 1,
  "thr" + "ee": 6 / 2,
  4: 4,
  true: 5,
  false: 6
}
"#;
    let pairs = vec![
        (Object::String(String::from("one")), Object::Int(1)),
        (Object::String(String::from("two")), Object::Int(2)),
        (Object::String(String::from("three")), Object::Int(3)),
        (Object::Int(4), Object::Int(4)),
        (Object::Bool(true), Object::Int(5)),
        (Object::Bool(false), Object::Int(6)),
    ];
    assert_eq!(Some(Object::Hash(pairs)), eval(input));
}

#[test]
fn test_hash_index_expr() {
    let tests = vec![
        ("{\"foo\": 5}[\"foo\"]", Some(Object::Int(5))),
        ("{\"foo\": 5}[\"bar\"]", Some(Object::Null)),
        ("let key = \"foo\"; {\"foo\": 5}[key]", Some(Object::Int(5))),
        ("{}[\"foo\"]", Some(Object::Null)),
        ("{5: 5}[5]", Some(Object::Int(5))),
        ("{true: 5}[true]", Some(Object::Int(5))),
        ("{false: 5}[false]", Some(Object::Int(5))),
    ];
    for (input, expect) in tests {
        assert_eq!(expect, eval(input));
    }
}

#[test]
fn test_not_operator() {
    let tests = vec![
        ("!true", Some(Object::Bool(false))),
        ("!false", Some(Object::Bool(true))),
        ("!!true", Some(Object::Bool(true))),
        ("!!false", Some(Object::Bool(false))),
        ("!!5", Some(Object::Bool(true))),
    ];
    for (input, expect) in tests {
        assert_eq!(expect, eval(input));
    }
}

#[test]
fn mod_test_if_else_expr() {
    let tests = vec![
        ("if (true) { 10 }", Some(Object::Int(10))),
        ("if (false) { 10 }", None),
        ("if (1) { 10 }", Some(Object::Int(10))),
        ("if (1 < 2) { 10 }", Some(Object::Int(10))),
        ("if (1 > 2) { 10 }", None),
        ("if (1 > 2) { 10 } else { 20 }", Some(Object::Int(20))),
        ("if (1 < 2) { 10 } else { 20 }", Some(Object::Int(10))),
        ("if (1 <= 2) { 10 }", Some(Object::Int(10))),
        ("if (1 >= 2) { 10 }", None),
        ("if (1 >= 2) { 10 } else { 20 }", Some(Object::Int(20))),
        ("if (1 <= 2) { 10 } else { 20 }", Some(Object::Int(10))),
    ];
    for (input, expect) in tests {
        assert_eq!(expect, eval(input));
    }
}

#[test]
fn mod_test_return_stmt() {
    let tests = vec![
        ("return 10;", Some(Object::Int(10))),
        ("return 10; 9;", Some(Object::Int(10))),
        ("return 2 * 5; 8;", Some(Object::Int(10))),
        ("9; return 2 * 5; 9;", Some(Object::Int(10))),
        (
            r#"
if (10 > 1) {
  if (10 > 1) {
    return 10;
  }
  return 1;
}"#,
            Some(Object::Int(10)),
        ),
    ];
    for (input, expect) in tests {
        assert_eq!(expect, eval(input));
    }
}

#[test]
fn mod_test_let_stmt() {
    let tests = vec![
        ("let a = 5; a;", Some(Object::Int(5))),
        ("let a = 5 * 5; a;", Some(Object::Int(25))),
        ("let a = 5; let b = a; b;", Some(Object::Int(5))),
        ("let a = 5; let b = a; let c = a + b + 5; c;", Some(Object::Int(15))),
    ];
    for (input, expect) in tests {
        assert_eq!(expect, eval(input));
    }
}

#[test]
fn test_blank_stmt() {
    let tests = vec![
        (
            r#"5;


"#,
            Some(Object::Int(5)),
        ),
        (
            r#"let identity = fn (x) {
  x;

}

identity(100);

"#,
            Some(Object::Int(100)),
        ),
    ];
    for (input, expect) in tests {
        assert_eq!(expect, eval(input));
    }
}

#[test]
fn test_fn_object() {
    let input = "fn(x) { x + 2; };";
    let params = vec![Ident(String::from("x"))];
    let body: BlockStmt = vec![Stmt::Expr(Expr::Infix(
        Infix::Plus,
        Box::new(Expr::Ident(Ident(String::from("x")))),
        Box::new(Expr::Literal(Literal::Int(2))),
    ))];
    // the captured environment is the root frame of the arena
    assert_eq!(Some(Object::Func(params, body, 0)), eval(input));
}

#[test]
fn test_fn_application() {
    let tests = vec![
        ("let identity = fn(x) { x; }; identity(5);", Some(Object::Int(5))),
        ("let identity = fn(x) { return x; }; identity(5);", Some(Object::Int(5))),
        (
            "let hello = fn() { return \"hello\"; }; hello();",
            Some(Object::String("hello".to_string())),
        ),
        (
            "赋能 hello = fn() { return \"hello\"; }; hello();",
            Some(Object::String("hello".to_string())),
        ),
        (
            "赋能 fib = 抓手(n) { 细分 (n 对齐 0) { 反哺 0; }; 细分 (n 对齐 1) { 反哺 1; }; 反哺 fib(n-1) + fib(n-2); }; fib(2);",
            Some(Object::Int(1)),
        ),
        ("let double = fn(x) { x * 2; }; double(5);", Some(Object::Int(10))),
        ("let add = fn(x, y) { x + y; }; add(5, 5);", Some(Object::Int(10))),
        (
            "let add = fn(x, y) { x + y; }; add(5 + 5, add(5, 5));",
            Some(Object::Int(20)),
        ),
        ("fn(x) { x; }(5)", Some(Object::Int(5))),
        ("fn(a) { let f = fn(b) { a + b }; f(a); }(5);", Some(Object::Int(10))),
        ("let diff = fn(x, y) { x 差异 y; }; diff(5, 5);", Some(Object::Int(0))),
        ("let divise = fn(x, y) { x 倾斜 y; }; divise(10, 5);", Some(Object::Int(2))),
    ];
    for (input, expect) in tests {
        assert_eq!(expect, eval(input));
    }
}

#[test]
fn test_closures() {
    let input = r#"
let newAdder = fn(x) {
  fn(y) { x + y };
}

let addTwo = newAdder(2);
addTwo(2);
        "#;
    assert_eq!(Some(Object::Int(4)), eval(input));
}

#[test]
fn test_builtin_functions() {
    let tests = vec![
        ("len(\"\")", Some(Object::Int(0))),
        ("len(\"four\")", Some(Object::Int(4))),
        ("len(\"hello world\")", Some(Object::Int(11))),
        ("len([1, 2, 3])", Some(Object::Int(3))),
        (
            "len(1)",
            Some(Object::Error(String::from("argument to `len` not supported, got 1"))),
        ),
        (
            "len(\"one\", \"two\")",
            Some(Object::Error(String::from("wrong number of arguments. got=2, want=1"))),
        ),
        ("first([1, 2, 3])", Some(Object::Int(1))),
        ("first([])", Some(Object::Null)),
        (
            "first([], [])",
            Some(Object::Error(String::from("wrong number of arguments. got=2, want=1"))),
        ),
        (
            "first(\"string\")",
            Some(Object::Error(String::from(
                "argument to `first` must be array. got \"string\"",
            ))),
        ),
        (
            "first(1)",
            Some(Object::Error(String::from("argument to `first` must be array. got 1"))),
        ),
        ("last([1, 2, 3])", Some(Object::Int(3))),
        ("last([])", Some(Object::Null)),
        (
            "last([], [])",
            Some(Object::Error(String::from("wrong number of arguments. got=2, want=1"))),
        ),
        (
            "last(\"string\")",
            Some(Object::Error(String::from(
                "argument to `last` must be array. got \"string\"",
            ))),
        ),
        (
            "last(1)",
            Some(Object::Error(String::from("argument to `last` must be array. got 1"))),
        ),
        (
            "rest([1, 2, 3, 4])",
            Some(Object::Array(vec![Object::Int(2), Object::Int(3), Object::Int(4)])),
        ),
        (
            "rest([2, 3, 4])",
            Some(Object::Array(vec![Object::Int(3), Object::Int(4)])),
        ),
        ("rest([4])", Some(Object::Array(vec![]))),
        ("rest([])", Some(Object::Null)),
        (
            "rest([], [])",
            Some(Object::Error(String::from("wrong number of arguments. got=2, want=1"))),
        ),
        (
            "rest(\"string\")",
            Some(Object::Error(String::from(
                "argument to `rest` must be array. got \"string\"",
            ))),
        ),
        (
            "rest(1)",
            Some(Object::Error(String::from("argument to `rest` must be array. got 1"))),
        ),
        (
            "push([1, 2, 3], 4)",
            Some(Object::Array(vec![
                Object::Int(1),
                Object::Int(2),
                Object::Int(3),
                Object::Int(4),
            ])),
        ),
        ("push([], 1)", Some(Object::Array(vec![Object::Int(1)]))),
        (
            "let a = [1]; push(a, 2); a",
            Some(Object::Array(vec![Object::Int(1)])),
        ),
        (
            "push([], [], [])",
            Some(Object::Error(String::from("wrong number of arguments. got=3, want=2"))),
        ),
        (
            "push(\"string\", 1)",
            Some(Object::Error(String::from(
                "argument to `push` must be array. got \"string\"",
            ))),
        ),
        (
            "push(1, 1)",
            Some(Object::Error(String::from("argument to `push` must be array. got 1"))),
        ),
    ];
    for (input, expect) in tests {
        assert_eq!(expect, eval(input));
    }
}

#[test]
fn test_error_handling() {
    let tests = vec![
        ("5 + true", Some(Object::Error(String::from("type mismatch: 5 + true")))),
        ("5 + true; 5;", Some(Object::Error(String::from("type mismatch: 5 + true")))),
        ("-true", Some(Object::Error(String::from("unknown operator: -true")))),
        (
            "5; true + false; 5;",
            Some(Object::Error(String::from("unknown operator: true + false"))),
        ),
        (
            "if (10 > 1) { true + false; }",
            Some(Object::Error(String::from("unknown operator: true + false"))),
        ),
        (
            "\"Hello\" - \"World\"",
            Some(Object::Error(String::from("unknown operator: Hello - World"))),
        ),
        (
            r#"
if (10 > 1) {
  if (10 > 1) {
    return true + false;
  }
  return 1;
}"#,
            Some(Object::Error(String::from("unknown operator: true + false"))),
        ),
        ("foobar", Some(Object::Error(String::from("identifier not found: foobar")))),
        (
            "{\"name\": \"Monkey\"}[fn(x) { x }]",
            Some(Object::Error(String::from("unusable as hash key: fn(x) { ... }"))),
        ),
    ];
    for (input, expect) in tests {
        assert_eq!(expect, eval(input));
    }
}
