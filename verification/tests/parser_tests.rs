//! The parser: token streams in, syntax trees and error lists out.

use pua_lang::ast::{Expr, Ident, Infix, Literal, Prefix, Stmt};
use pua_lang::lexer::Lexer;
use pua_lang::parser::Parser;

fn check_parse_errors(parser: &mut Parser) {
    let errors = parser.get_errors();
    if errors.len() == 0 {
        return;
    }
    println!("parser has {} errors", errors.len());
    for err in errors {
        println!("parse error: {:?}", err);
    }
    panic!("failed");
}

#[test]
fn mod_test_blank() {
    let input = r#"
1000;

1000;


1000;

if (x) {

    x;

}
        "#;

    let mut parser = Parser::new(Lexer::new(input));
    let program = parser.parse();

    check_parse_errors(&mut parser);
    assert_eq!(
        vec![
            Stmt::Expr(Expr::Literal(Literal::Int(1000))),
            Stmt::Blank,
            Stmt::Expr(Expr::Literal(Literal::Int(1000))),
            Stmt::Blank,
            Stmt::Blank,
            Stmt::Expr(Expr::Literal(Literal::Int(1000))),
            Stmt::Blank,
            Stmt::Expr(Expr::If {
                cond: Box::new(Expr::Ident(Ident(String::from("x")))),
                consequence: vec![
                    Stmt::Blank,
                    Stmt::Expr(Expr::Ident(Ident(String::from("x")))),
                    Stmt::Blank,
                ],
                alternative: None,
            }),
        ],
        program,
    );
}

#[test]
fn test_let_stmt_parses() {
    let input = r#"
let x = 5;
let y = 10;
let foobar = 838383;
        "#;

    let mut parser = Parser::new(Lexer::new(input));
    let program = parser.parse();

    check_parse_errors(&mut parser);
    assert_eq!(
        vec![
            Stmt::Let(Ident(String::from("x")), Expr::Literal(Literal::Int(5))),
            Stmt::Let(Ident(String::from("y")), Expr::Literal(Literal::Int(10))),
            Stmt::Let(
                Ident(String::from("foobar")),
                Expr::Literal(Literal::Int(838383)),
            ),
        ],
        program,
    );
}

#[test]
fn test_return_stmt_parses() {
    let input = r#"
return 5;
return 10;
return 993322;
        "#;

    let mut parser = Parser::new(Lexer::new(input));
    let program = parser.parse();

    check_parse_errors(&mut parser);
    assert_eq!(
        vec![
            Stmt::Return(Expr::Literal(Literal::Int(5))),
            Stmt::Return(Expr::Literal(Literal::Int(10))),
            Stmt::Return(Expr::Literal(Literal::Int(993322))),
        ],
        program,
    );
}

#[test]
fn mod_test_ident_expr() {
    let input = "foobar;";

    let mut parser = Parser::new(Lexer::new(input));
    let program = parser.parse();

    check_parse_errors(&mut parser);
    assert_eq!(
        vec![Stmt::Expr(Expr::Ident(Ident(String::from("foobar"))))],
        program,
    );
}

#[test]
fn mod_test_integer_literal_expr() {
    let input = "5;";

    let mut parser = Parser::new(Lexer::new(input));
    let program = parser.parse();

    check_parse_errors(&mut parser);
    assert_eq!(vec![Stmt::Expr(Expr::Literal(Literal::Int(5)))], program,);
}

#[test]
fn test_string_literal_expr() {
    let input = "\"hello world\";";

    let mut parser = Parser::new(Lexer::new(input));
    let program = parser.parse();

    check_parse_errors(&mut parser);
    assert_eq!(
        vec![Stmt::Expr(Expr::Literal(Literal::String(String::from(
            "hello world",
        ))))],
        program,
    );
}

#[test]
fn mod_test_boolean_literal_expr() {
    let tests = vec![
        ("true;", Stmt::Expr(Expr::Literal(Literal::Bool(true)))),
        ("false;", Stmt::Expr(Expr::Literal(Literal::Bool(false)))),
    ];

    for (input, expect) in tests {
        let mut parser = Parser::new(Lexer::new(input));
        let program = parser.parse();

        check_parse_errors(&mut parser);
        assert_eq!(vec![expect], program);
    }
}

#[test]
fn test_array_literal_expr() {
    let input = "[1, 2 * 2, 3 + 3]";

    let mut parser = Parser::new(Lexer::new(input));
    let program = parser.parse();

    check_parse_errors(&mut parser);
    assert_eq!(
        vec![Stmt::Expr(Expr::Literal(Literal::Array(vec![
            Expr::Literal(Literal::Int(1)),
            Expr::Infix(
                Infix::Multiply,
                Box::new(Expr::Literal(Literal::Int(2))),
                Box::new(Expr::Literal(Literal::Int(2))),
            ),
            Expr::Infix(
                Infix::Plus,
                Box::new(Expr::Literal(Literal::Int(3))),
                Box::new(Expr::Literal(Literal::Int(3))),
            ),
        ])))],
        program,
    );
}

#[test]
fn test_hash_literal_expr() {
    let tests = vec![
        ("{}", Stmt::Expr(Expr::Literal(Literal::Hash(vec![])))),
        (
            "{\"one\": 1, \"two\": 2, \"three\": 3}",
            Stmt::Expr(Expr::Literal(Literal::Hash(vec![
                (
                    Expr::Literal(Literal::String(String::from("one"))),
                    Expr::Literal(Literal::Int(1)),
                ),
                (
                    Expr::Literal(Literal::String(String::from("two"))),
                    Expr::Literal(Literal::Int(2)),
                ),
                (
                    Expr::Literal(Literal::String(String::from("three"))),
                    Expr::Literal(Literal::Int(3)),
                ),
            ]))),
        ),
        (
            "{\"one\": 0 + 1, \"two\": 10 - 8, \"three\": 15 / 5}",
            Stmt::Expr(Expr::Literal(Literal::Hash(vec![
                (
                    Expr::Literal(Literal::String(String::from("one"))),
                    Expr::Infix(
                        Infix::Plus,
                        Box::new(Expr::Literal(Literal::Int(0))),
                        Box::new(Expr::Literal(Literal::Int(1))),
                    ),
                ),
                (
                    Expr::Literal(Literal::String(String::from("two"))),
                    Expr::Infix(
                        Infix::Minus,
                        Box::new(Expr::Literal(Literal::Int(10))),
                        Box::new(Expr::Literal(Literal::Int(8))),
                    ),
                ),
                (
                    Expr::Literal(Literal::String(String::from("three"))),
                    Expr::Infix(
                        Infix::Divide,
                        Box::new(Expr::Literal(Literal::Int(15))),
                        Box::new(Expr::Literal(Literal::Int(5))),
                    ),
                ),
            ]))),
        ),
        (
            "{key: \"value\"}",
            Stmt::Expr(Expr::Literal(Literal::Hash(vec![(
                Expr::Ident(Ident(String::from("key"))),
                Expr::Literal(Literal::String(String::from("value"))),
            )]))),
        ),
    ];

    for (input, expect) in tests {
        let mut parser = Parser::new(Lexer::new(input));
        let program = parser.parse();

        check_parse_errors(&mut parser);
        assert_eq!(vec![expect], program);
    }
}

#[test]
fn mod_test_index_expr() {
    let input = "myArray[1 + 1]";

    let mut parser = Parser::new(Lexer::new(input));
    let program = parser.parse();

    check_parse_errors(&mut parser);
    assert_eq!(
        vec![Stmt::Expr(Expr::Index(
            Box::new(Expr::Ident(Ident(String::from("myArray")))),
            Box::new(Expr::Infix(
                Infix::Plus,
                Box::new(Expr::Literal(Literal::Int(1))),
                Box::new(Expr::Literal(Literal::Int(1))),
            )),
        ))],
        program
    );
}

#[test]
fn mod_test_prefix_expr() {
    let tests = vec![
        (
            "!5;",
            Stmt::Expr(Expr::Prefix(
                Prefix::Not,
                Box::new(Expr::Literal(Literal::Int(5))),
            )),
        ),
        (
            "-15;",
            Stmt::Expr(Expr::Prefix(
                Prefix::Minus,
                Box::new(Expr::Literal(Literal::Int(15))),
            )),
        ),
        (
            "+15;",
            Stmt::Expr(Expr::Prefix(
                Prefix::Plus,
                Box::new(Expr::Literal(Literal::Int(15))),
            )),
        ),
    ];

    for (input, expect) in tests {
        let mut parser = Parser::new(Lexer::new(input));
        let program = parser.parse();

        check_parse_errors(&mut parser);
        assert_eq!(vec![expect], program);
    }
}

#[test]
fn mod_test_infix_expr() {
    let tests = vec![
        (
            "5 + 5;",
            Stmt::Expr(Expr::Infix(
                Infix::Plus,
                Box::new(Expr::Literal(Literal::Int(5))),
                Box::new(Expr::Literal(Literal::Int(5))),
            )),
        ),
        (
            "5 - 5;",
            Stmt::Expr(Expr::Infix(
                Infix::Minus,
                Box::new(Expr::Literal(Literal::Int(5))),
                Box::new(Expr::Literal(Literal::Int(5))),
            )),
        ),
        (
            "5 * 5;",
            Stmt::Expr(Expr::Infix(
                Infix::Multiply,
                Box::new(Expr::Literal(Literal::Int(5))),
                Box::new(Expr::Literal(Literal::Int(5))),
            )),
        ),
        (
            "5 / 5;",
            Stmt::Expr(Expr::Infix(
                Infix::Divide,
                Box::new(Expr::Literal(Literal::Int(5))),
                Box::new(Expr::Literal(Literal::Int(5))),
            )),
        ),
        (
            "5 > 5;",
            Stmt::Expr(Expr::Infix(
                Infix::GreaterThan,
                Box::new(Expr::Literal(Literal::Int(5))),
                Box::new(Expr::Literal(Literal::Int(5))),
            )),
        ),
        (
            "5 < 5;",
            Stmt::Expr(Expr::Infix(
                Infix::LessThan,
                Box::new(Expr::Literal(Literal::Int(5))),
                Box::new(Expr::Literal(Literal::Int(5))),
            )),
        ),
        (
            "5 == 5;",
            Stmt::Expr(Expr::Infix(
                Infix::Equal,
                Box::new(Expr::Literal(Literal::Int(5))),
                Box::new(Expr::Literal(Literal::Int(5))),
            )),
        ),
        (
            "5 != 5;",
            Stmt::Expr(Expr::Infix(
                Infix::NotEqual,
                Box::new(Expr::Literal(Literal::Int(5))),
                Box::new(Expr::Literal(Literal::Int(5))),
            )),
        ),
        (
            "5 >= 5;",
            Stmt::Expr(Expr::Infix(
                Infix::GreaterThanEqual,
                Box::new(Expr::Literal(Literal::Int(5))),
                Box::new(Expr::Literal(Literal::Int(5))),
            )),
        ),
        (
            "5 <= 5;",
            Stmt::Expr(Expr::Infix(
                Infix::LessThanEqual,
                Box::new(Expr::Literal(Literal::Int(5))),
                Box::new(Expr::Literal(Literal::Int(5))),
            )),
        ),
    ];

    for (input, expect) in tests {
        let mut parser = Parser::new(Lexer::new(input));
        let program = parser.parse();

        check_parse_errors(&mut parser);
        assert_eq!(vec![expect], program);
    }
}

#[test]
fn mod_test_if_expr() {
    let input = "if (x < y) { x }";

    let mut parser = Parser::new(Lexer::new(input));
    let program = parser.parse();

    check_parse_errors(&mut parser);
    assert_eq!(
        vec![Stmt::Expr(Expr::If {
            cond: Box::new(Expr::Infix(
                Infix::LessThan,
                Box::new(Expr::Ident(Ident(String::from("x")))),
                Box::new(Expr::Ident(Ident(String::from("y")))),
            )),
            consequence: vec![Stmt::Expr(Expr::Ident(Ident(String::from("x"))))],
            alternative: None,
        })],
        program,
    );
}

#[test]
fn test_if_else_expr() {
    let input = "if (x < y) { x } else { y }";

    let mut parser = Parser::new(Lexer::new(input));
    let program = parser.parse();

    check_parse_errors(&mut parser);
    assert_eq!(
        vec![Stmt::Expr(Expr::If {
            cond: Box::new(Expr::Infix(
                Infix::LessThan,
                Box::new(Expr::Ident(Ident(String::from("x")))),
                Box::new(Expr::Ident(Ident(String::from("y")))),
            )),
            consequence: vec![Stmt::Expr(Expr::Ident(Ident(String::from("x"))))],
            alternative: Some(vec![Stmt::Expr(Expr::Ident(Ident(String::from("y"))))]),
        })],
        program,
    );
}

#[test]
fn mod_test_func_expr() {
    let input = "fn(x, y) { x + y; }";

    let mut parser = Parser::new(Lexer::new(input));
    let program = parser.parse();

    check_parse_errors(&mut parser);
    assert_eq!(
        vec![Stmt::Expr(Expr::Func {
            params: vec![Ident(String::from("x")), Ident(String::from("y"))],
            body: vec![Stmt::Expr(Expr::Infix(
                Infix::Plus,
                Box::new(Expr::Ident(Ident(String::from("x")))),
                Box::new(Expr::Ident(Ident(String::from("y")))),
            ))],
        })],
        program,
    );
}

#[test]
fn test_func_params() {
    let tests = vec![
        ("fn() {};", vec![]),
        ("fn(x) {};", vec![Ident(String::from("x"))]),
        (
            "fn(x, y, z) {};",
            vec![
                Ident(String::from("x")),
                Ident(String::from("y")),
                Ident(String::from("z")),
            ],
        ),
    ];

    for (input, expect) in tests {
        let mut parser = Parser::new(Lexer::new(input));
        let program = parser.parse();

        check_parse_errors(&mut parser);
        assert_eq!(
            vec![Stmt::Expr(Expr::Func {
                params: expect,
                body: vec![],
            })],
            program,
        );
    }
}

#[test]
fn mod_test_call_expr() {
    let input = "add(1, 2 * 3, 4 + 5);";

    let mut parser = Parser::new(Lexer::new(input));
    let program = parser.parse();

    check_parse_errors(&mut parser);
    assert_eq!(
        vec![Stmt::Expr(Expr::Call {
            func: Box::new(Expr::Ident(Ident(String::from("add")))),
            args: vec![
                Expr::Literal(Literal::Int(1)),
                Expr::Infix(
                    Infix::Multiply,
                    Box::new(Expr::Literal(Literal::Int(2))),
                    Box::new(Expr::Literal(Literal::Int(3))),
                ),
                Expr::Infix(
                    Infix::Plus,
                    Box::new(Expr::Literal(Literal::Int(4))),
                    Box::new(Expr::Literal(Literal::Int(5))),
                ),
            ],
        })],
        program,
    );
}

#[test]
fn mod_test_operator_precedence_parsing() {
    let tests = vec![
        (
            "-a * b",
            Stmt::Expr(Expr::Infix(
                Infix::Multiply,
                Box::new(Expr::Prefix(
                    Prefix::Minus,
                    Box::new(Expr::Ident(Ident(String::from("a")))),
                )),
                Box::new(Expr::Ident(Ident(String::from("b")))),
            )),
        ),
        (
            "!-a",
            Stmt::Expr(Expr::Prefix(
                Prefix::Not,
                Box::new(Expr::Prefix(
                    Prefix::Minus,
                    Box::new(Expr::Ident(Ident(String::from("a")))),
                )),
            )),
        ),
        (
            "a + b + c",
            Stmt::Expr(Expr::Infix(
                Infix::Plus,
                Box::new(Expr::Infix(
                    Infix::Plus,
                    Box::new(Expr::Ident(Ident(String::from("a")))),
                    Box::new(Expr::Ident(Ident(String::from("b")))),
                )),
                Box::new(Expr::Ident(Ident(String::from("c")))),
            )),
        ),
        (
            "a + b - c",
            Stmt::Expr(Expr::Infix(
                Infix::Minus,
                Box::new(Expr::Infix(
                    Infix::Plus,
                    Box::new(Expr::Ident(Ident(String::from("a")))),
                    Box::new(Expr::Ident(Ident(String::from("b")))),
                )),
                Box::new(Expr::Ident(Ident(String::from("c")))),
            )),
        ),
        (
            "a * b * c",
            Stmt::Expr(Expr::Infix(
                Infix::Multiply,
                Box::new(Expr::Infix(
                    Infix::Multiply,
                    Box::new(Expr::Ident(Ident(String::from("a")))),
                    Box::new(Expr::Ident(Ident(String::from("b")))),
                )),
                Box::new(Expr::Ident(Ident(String::from("c")))),
            )),
        ),
        (
            "a * b / c",
            Stmt::Expr(Expr::Infix(
                Infix::Divide,
                Box::new(Expr::Infix(
                    Infix::Multiply,
                    Box::new(Expr::Ident(Ident(String::from("a")))),
                    Box::new(Expr::Ident(Ident(String::from("b")))),
                )),
                Box::new(Expr::Ident(Ident(String::from("c")))),
            )),
        ),
        (
            "a + b / c",
            Stmt::Expr(Expr::Infix(
                Infix::Plus,
                Box::new(Expr::Ident(Ident(String::from("a")))),
                Box::new(Expr::Infix(
                    Infix::Divide,
                    Box::new(Expr::Ident(Ident(String::from("b")))),
                    Box::new(Expr::Ident(Ident(String::from("c")))),
                )),
            )),
        ),
        (
            "a + b * c + d / e - f",
            Stmt::Expr(Expr::Infix(
                Infix::Minus,
                Box::new(Expr::Infix(
                    Infix::Plus,
                    Box::new(Expr::Infix(
                        Infix::Plus,
                        Box::new(Expr::Ident(Ident(String::from("a")))),
                        Box::new(Expr::Infix(
                            Infix::Multiply,
                            Box::new(Expr::Ident(Ident(String::from("b")))),
                            Box::new(Expr::Ident(Ident(String::from("c")))),
                        )),
                    )),
                    Box::new(Expr::Infix(
                        Infix::Divide,
                        Box::new(Expr::Ident(Ident(String::from("d")))),
                        Box::new(Expr::Ident(Ident(String::from("e")))),
                    )),
                )),
                Box::new(Expr::Ident(Ident(String::from("f")))),
            )),
        ),
        (
            "5 > 4 == 3 < 4",
            Stmt::Expr(Expr::Infix(
                Infix::Equal,
                Box::new(Expr::Infix(
                    Infix::GreaterThan,
                    Box::new(Expr::Literal(Literal::Int(5))),
                    Box::new(Expr::Literal(Literal::Int(4))),
                )),
                Box::new(Expr::Infix(
                    Infix::LessThan,
                    Box::new(Expr::Literal(Literal::Int(3))),
                    Box::new(Expr::Literal(Literal::Int(4))),
                )),
            )),
        ),
        (
            "5 < 4 != 3 > 4",
            Stmt::Expr(Expr::Infix(
                Infix::NotEqual,
                Box::new(Expr::Infix(
                    Infix::LessThan,
                    Box::new(Expr::Literal(Literal::Int(5))),
                    Box::new(Expr::Literal(Literal::Int(4))),
                )),
                Box::new(Expr::Infix(
                    Infix::GreaterThan,
                    Box::new(Expr::Literal(Literal::Int(3))),
                    Box::new(Expr::Literal(Literal::Int(4))),
                )),
            )),
        ),
        (
            "5 >= 4 == 3 <= 4",
            Stmt::Expr(Expr::Infix(
                Infix::Equal,
                Box::new(Expr::Infix(
                    Infix::GreaterThanEqual,
                    Box::new(Expr::Literal(Literal::Int(5))),
                    Box::new(Expr::Literal(Literal::Int(4))),
                )),
                Box::new(Expr::Infix(
                    Infix::LessThanEqual,
                    Box::new(Expr::Literal(Literal::Int(3))),
                    Box::new(Expr::Literal(Literal::Int(4))),
                )),
            )),
        ),
        (
            "5 <= 4 != 3 >= 4",
            Stmt::Expr(Expr::Infix(
                Infix::NotEqual,
                Box::new(Expr::Infix(
                    Infix::LessThanEqual,
                    Box::new(Expr::Literal(Literal::Int(5))),
                    Box::new(Expr::Literal(Literal::Int(4))),
                )),
                Box::new(Expr::Infix(
                    Infix::GreaterThanEqual,
                    Box::new(Expr::Literal(Literal::Int(3))),
                    Box::new(Expr::Literal(Literal::Int(4))),
                )),
            )),
        ),
        (
            "3 + 4 * 5 == 3 * 1 + 4 * 5",
            Stmt::Expr(Expr::Infix(
                Infix::Equal,
                Box::new(Expr::Infix(
                    Infix::Plus,
                    Box::new(Expr::Literal(Literal::Int(3))),
                    Box::new(Expr::Infix(
                        Infix::Multiply,
                        Box::new(Expr::Literal(Literal::Int(4))),
                        Box::new(Expr::Literal(Literal::Int(5))),
                    )),
                )),
                Box::new(Expr::Infix(
                    Infix::Plus,
                    Box::new(Expr::Infix(
                        Infix::Multiply,
                        Box::new(Expr::Literal(Literal::Int(3))),
                        Box::new(Expr::Literal(Literal::Int(1))),
                    )),
                    Box::new(Expr::Infix(
                        Infix::Multiply,
                        Box::new(Expr::Literal(Literal::Int(4))),
                        Box::new(Expr::Literal(Literal::Int(5))),
                    )),
                )),
            )),
        ),
        ("true", Stmt::Expr(Expr::Literal(Literal::Bool(true)))),
        ("false", Stmt::Expr(Expr::Literal(Literal::Bool(false)))),
        (
            "3 > 5 == false",
            Stmt::Expr(Expr::Infix(
                Infix::Equal,
                Box::new(Expr::Infix(
                    Infix::GreaterThan,
                    Box::new(Expr::Literal(Literal::Int(3))),
                    Box::new(Expr::Literal(Literal::Int(5))),
                )),
                Box::new(Expr::Literal(Literal::Bool(false))),
            )),
        ),
        (
            "3 < 5 == true",
            Stmt::Expr(Expr::Infix(
                Infix::Equal,
                Box::new(Expr::Infix(
                    Infix::LessThan,
                    Box::new(Expr::Literal(Literal::Int(3))),
                    Box::new(Expr::Literal(Literal::Int(5))),
                )),
                Box::new(Expr::Literal(Literal::Bool(true))),
            )),
        ),
        (
            "1 + (2 + 3) + 4",
            Stmt::Expr(Expr::Infix(
                Infix::Plus,
                Box::new(Expr::Infix(
                    Infix::Plus,
                    Box::new(Expr::Literal(Literal::Int(1))),
                    Box::new(Expr::Infix(
                        Infix::Plus,
                        Box::new(Expr::Literal(Literal::Int(2))),
                        Box::new(Expr::Literal(Literal::Int(3))),
                    )),
                )),
                Box::new(Expr::Literal(Literal::Int(4))),
            )),
        ),
        (
            "(5 + 5) * 2",
            Stmt::Expr(Expr::Infix(
                Infix::Multiply,
                Box::new(Expr::Infix(
                    Infix::Plus,
                    Box::new(Expr::Literal(Literal::Int(5))),
                    Box::new(Expr::Literal(Literal::Int(5))),
                )),
                Box::new(Expr::Literal(Literal::Int(2))),
            )),
        ),
        (
            "2 / (5 + 5)",
            Stmt::Expr(Expr::Infix(
                Infix::Divide,
                Box::new(Expr::Literal(Literal::Int(2))),
                Box::new(Expr::Infix(
                    Infix::Plus,
                    Box::new(Expr::Literal(Literal::Int(5))),
                    Box::new(Expr::Literal(Literal::Int(5))),
                )),
            )),
        ),
        (
            "-(5 + 5)",
            Stmt::Expr(Expr::Prefix(
                Prefix::Minus,
                Box::new(Expr::Infix(
                    Infix::Plus,
                    Box::new(Expr::Literal(Literal::Int(5))),
                    Box::new(Expr::Literal(Literal::Int(5))),
                )),
            )),
        ),
        (
            "!(true == true)",
            Stmt::Expr(Expr::Prefix(
                Prefix::Not,
                Box::new(Expr::Infix(
                    Infix::Equal,
                    Box::new(Expr::Literal(Literal::Bool(true))),
                    Box::new(Expr::Literal(Literal::Bool(true))),
                )),
            )),
        ),
        (
            "a + add(b * c) + d",
            Stmt::Expr(Expr::Infix(
                Infix::Plus,
                Box::new(Expr::Infix(
                    Infix::Plus,
                    Box::new(Expr::Ident(Ident(String::from("a")))),
                    Box::new(Expr::Call {
                        func: Box::new(Expr::Ident(Ident(String::from("add")))),
                        args: vec![Expr::Infix(
                            Infix::Multiply,
                            Box::new(Expr::Ident(Ident(String::from("b")))),
                            Box::new(Expr::Ident(Ident(String::from("c")))),
                        )],
                    }),
                )),
                Box::new(Expr::Ident(Ident(String::from("d")))),
            )),
        ),
        (
            "add(a, b, 1, 2 * 3, 4 + 5, add(6, 7 * 8))",
            Stmt::Expr(Expr::Call {
                func: Box::new(Expr::Ident(Ident(String::from("add")))),
                args: vec![
                    Expr::Ident(Ident(String::from("a"))),
                    Expr::Ident(Ident(String::from("b"))),
                    Expr::Literal(Literal::Int(1)),
                    Expr::Infix(
                        Infix::Multiply,
                        Box::new(Expr::Literal(Literal::Int(2))),
                        Box::new(Expr::Literal(Literal::Int(3))),
                    ),
                    Expr::Infix(
                        Infix::Plus,
                        Box::new(Expr::Literal(Literal::Int(4))),
                        Box::new(Expr::Literal(Literal::Int(5))),
                    ),
                    Expr::Call {
                        func: Box::new(Expr::Ident(Ident(String::from("add")))),
                        args: vec![
                            Expr::Literal(Literal::Int(6)),
                            Expr::Infix(
                                Infix::Multiply,
                                Box::new(Expr::Literal(Literal::Int(7))),
                                Box::new(Expr::Literal(Literal::Int(8))),
                            ),
                        ],
                    },
                ],
            }),
        ),
        (
            "add(a + b + c * d / f + g)",
            Stmt::Expr(Expr::Call {
                func: Box::new(Expr::Ident(Ident(String::from("add")))),
                args: vec![Expr::Infix(
                    Infix::Plus,
                    Box::new(Expr::Infix(
                        Infix::Plus,
                        Box::new(Expr::Infix(
                            Infix::Plus,
                            Box::new(Expr::Ident(Ident(String::from("a")))),
                            Box::new(Expr::Ident(Ident(String::from("b")))),
                        )),
                        Box::new(Expr::Infix(
                            Infix::Divide,
                            Box::new(Expr::Infix(
                                Infix::Multiply,
                                Box::new(Expr::Ident(Ident(String::from("c")))),
                                Box::new(Expr::Ident(Ident(String::from("d")))),
                            )),
                            Box::new(Expr::Ident(Ident(String::from("f")))),
                        )),
                    )),
                    Box::new(Expr::Ident(Ident(String::from("g")))),
                )],
            }),
        ),
        (
            "a * [1, 2, 3, 4][b * c] * d",
            Stmt::Expr(Expr::Infix(
                Infix::Multiply,
                Box::new(Expr::Infix(
                    Infix::Multiply,
                    Box::new(Expr::Ident(Ident(String::from("a")))),
                    Box::new(Expr::Index(
                        Box::new(Expr::Literal(Literal::Array(vec![
                            Expr::Literal(Literal::Int(1)),
                            Expr::Literal(Literal::Int(2)),
                            Expr::Literal(Literal::Int(3)),
                            Expr::Literal(Literal::Int(4)),
                        ]))),
                        Box::new(Expr::Infix(
                            Infix::Multiply,
                            Box::new(Expr::Ident(Ident(String::from("b")))),
                            Box::new(Expr::Ident(Ident(String::from("c")))),
                        )),
                    )),
                )),
                Box::new(Expr::Ident(Ident(String::from("d")))),
            )),
        ),
        (
            "add(a * b[2], b[1], 2 * [1, 2][1])",
            Stmt::Expr(Expr::Call {
                func: Box::new(Expr::Ident(Ident(String::from("add")))),
                args: vec![
                    Expr::Infix(
                        Infix::Multiply,
                        Box::new(Expr::Ident(Ident(String::from("a")))),
                        Box::new(Expr::Index(
                            Box::new(Expr::Ident(Ident(String::from("b")))),
                            Box::new(Expr::Literal(Literal::Int(2))),
                        )),
                    ),
                    Expr::Index(
                        Box::new(Expr::Ident(Ident(String::from("b")))),
                        Box::new(Expr::Literal(Literal::Int(1))),
                    ),
                    Expr::Infix(
                        Infix::Multiply,
                        Box::new(Expr::Literal(Literal::Int(2))),
                        Box::new(Expr::Index(
                            Box::new(Expr::Literal(Literal::Array(vec![
                                Expr::Literal(Literal::Int(1)),
                                Expr::Literal(Literal::Int(2)),
                            ]))),
                            Box::new(Expr::Literal(Literal::Int(1))),
                        )),
                    ),
                ],
            }),
        ),
    ];

    for (input, expect) in tests {
        let mut parser = Parser::new(Lexer::new(input));
        let program = parser.parse();

        check_parse_errors(&mut parser);
        assert_eq!(vec![expect], program);
    }
}

