//! The parser exercised over its older, plainer test corpus: the same
//! grammar, checked expression by expression.

use pua_lang::ast::{Expr, Ident, Infix, Literal, Prefix, Stmt};
use pua_lang::lexer::Lexer;
use pua_lang::parser::Parser;

fn check_parse_errors(parser: &mut Parser) {
    let errors = parser.get_errors();
    if errors.len() == 0 {
        return;
    }
    println!("parser has {} errors", errors.len());
    for err in errors {
        println!("parse error: {:?}", err);
    }
    panic!("failed");
}

#[test]
fn parser_test_ident_expr() {
    let input = "foobar;";

    let mut parser = Parser::new(Lexer::new(input));
    let program = parser.parse();

    check_parse_errors(&mut parser);
    assert_eq!(1, program.len());
    assert_eq!(Stmt::Expr(Expr::Ident(Ident(String::from("foobar")))), program[0]);
}

#[test]
fn parser_test_integer_literal_expr() {
    let input = "5;";

    let mut parser = Parser::new(Lexer::new(input));
    let program = parser.parse();

    check_parse_errors(&mut parser);
    assert_eq!(1, program.len());
    assert_eq!(Stmt::Expr(Expr::Literal(Literal::Int(5))), program[0]);
}

#[test]
fn parser_test_boolean_literal_expr() {
    let tests = vec![
        ("true;", Stmt::Expr(Expr::Literal(Literal::Bool(true)))),
        ("false;", Stmt::Expr(Expr::Literal(Literal::Bool(false)))),
    ];

    for (input, expect) in tests {
        let mut parser = Parser::new(Lexer::new(input));
        let program = parser.parse();

        check_parse_errors(&mut parser);
        assert_eq!(1, program.len());
        assert_eq!(expect, program[0]);
    }
}

#[test]
fn parser_test_prefix_expr() {
    let tests = vec![
        ("!5;", Stmt::Expr(Expr::Prefix(Prefix::Not, Box::new(Expr::Literal(Literal::Int(5)))))),
        ("-15;", Stmt::Expr(Expr::Prefix(Prefix::Minus, Box::new(Expr::Literal(Literal::Int(15)))))),
    ];

    for (input, expect) in tests {
        let mut parser = Parser::new(Lexer::new(input));
        let program = parser.parse();

        check_parse_errors(&mut parser);
        assert_eq!(1, program.len());
        assert_eq!(expect, program[0]);
    }
}

#[test]
fn parser_test_infix_expr() {
    let tests = vec![
        ("5 + 5;", Stmt::Expr(Expr::Infix(
            Infix::Plus,
            Box::new(Expr::Literal(Literal::Int(5))),
            Box::new(Expr::Literal(Literal::Int(5))),
        ))),
        ("5 - 5;", Stmt::Expr(Expr::Infix(
            Infix::Minus,
            Box::new(Expr::Literal(Literal::Int(5))),
            Box::new(Expr::Literal(Literal::Int(5))),
        ))),
        ("5 * 5;", Stmt::Expr(Expr::Infix(
            Infix::Multiply,
            Box::new(Expr::Literal(Literal::Int(5))),
            Box::new(Expr::Literal(Literal::Int(5))),
        ))),
        ("5 / 5;", Stmt::Expr(Expr::Infix(
            Infix::Divide,
            Box::new(Expr::Literal(Literal::Int(5))),
            Box::new(Expr::Literal(Literal::Int(5))),
        ))),
        ("5 > 5;", Stmt::Expr(Expr::Infix(
            Infix::GreaterThan,
            Box::new(Expr::Literal(Literal::Int(5))),
            Box::new(Expr::Literal(Literal::Int(5))),
        ))),
        ("5 < 5;", Stmt::Expr(Expr::Infix(
            Infix::LessThan,
            Box::new(Expr::Literal(Literal::Int(5))),
            Box::new(Expr::Literal(Literal::Int(5))),
        ))),
        ("5 == 5;", Stmt::Expr(Expr::Infix(
            Infix::Equal,
            Box::new(Expr::Literal(Literal::Int(5))),
            Box::new(Expr::Literal(Literal::Int(5))),
        ))),
        ("5 != 5;", Stmt::Expr(Expr::Infix(
            Infix::NotEqual,
            Box::new(Expr::Literal(Literal::Int(5))),
            Box::new(Expr::Literal(Literal::Int(5))),
        ))),
        ("5 >= 5;", Stmt::Expr(Expr::Infix(
            Infix::GreaterThanEqual,
            Box::new(Expr::Literal(Literal::Int(5))),
            Box::new(Expr::Literal(Literal::Int(5))),
        ))),
        ("5 <= 5;", Stmt::Expr(Expr::Infix(
            Infix::LessThanEqual,
            Box::new(Expr::Literal(Literal::Int(5))),
            Box::new(Expr::Literal(Literal::Int(5))),
        ))),
    ];

    for (input, expect) in tests {
        let mut parser = Parser::new(Lexer::new(input));
        let program = parser.parse();

        check_parse_errors(&mut parser);

        assert_eq!(1, program.len());
        assert_eq!(expect, program[0]);
    }
}

#[test]
fn parser_test_if_expr() {
    let input = "if (x < y) { x }";

    let mut parser = Parser::new(Lexer::new(input));
    let program = parser.parse();

    check_parse_errors(&mut parser);
    assert_eq!(1, program.len());
    assert_eq!(
        Stmt::Expr(
            Expr::If {
                cond: Box::new(Expr::Infix(Infix::LessThan, Box::new(Expr::Ident(Ident(String::from("x")))), Box::new(Expr::Ident(Ident(String::from("y")))))),
                consequence: vec![
                    Stmt::Expr(Expr::Ident(Ident(String::from("x")))),
                ],
                alternative: None,
            },
        ),
        program[0],
    );
}

#[test]
fn parser_test_if_else_expr() {
    let input = "if (x < y) { x } else { y }";

    let mut parser = Parser::new(Lexer::new(input));
    let program = parser.parse();

    check_parse_errors(&mut parser);
    assert_eq!(1, program.len());
    assert_eq!(
        Stmt::Expr(
            Expr::If {
                cond: Box::new(Expr::Infix(Infix::LessThan, Box::new(Expr::Ident(Ident(String::from("x")))), Box::new(Expr::Ident(Ident(String::from("y")))))),
                consequence: vec![
                    Stmt::Expr(Expr::Ident(Ident(String::from("x")))),
                ],
                alternative: Some(vec![
                    Stmt::Expr(Expr::Ident(Ident(String::from("y"))))
                ]),
            },
        ),
        program[0],
    );
}

#[test]
fn parser_test_operator_precedence_parsing() {
    let tests = vec![
        ("-a * b", Stmt::Expr(
            Expr::Infix(
                Infix::Multiply,
                Box::new(Expr::Prefix(Prefix::Minus, Box::new(Expr::Ident(Ident(String::from("a")))))),
                Box::new(Expr::Ident(Ident(String::from("b")))),
            ),
        )),
        ("!-a", Stmt::Expr(
            Expr::Prefix(
                Prefix::Not,
                Box::new(
                    Expr::Prefix(
                        Prefix::Minus,
                        Box::new(Expr::Ident(Ident(String::from("a")))),
                    ),
                ),
            ),
        )),
        ("a + b + c", Stmt::Expr(
            Expr::Infix(
                Infix::Plus,
                Box::new(
                    Expr::Infix(
                        Infix::Plus,
                        Box::new(Expr::Ident(Ident(String::from("a")))),
                        Box::new(Expr::Ident(Ident(String::from("b")))),
                    ),
                ),
                Box::new(Expr::Ident(Ident(String::from("c")))),
            ),
        )),
        ("a + b - c", Stmt::Expr(
            Expr::Infix(
                Infix::Minus,
                Box::new(
                    Expr::Infix(
                        Infix::Plus,
                        Box::new(Expr::Ident(Ident(String::from("a")))),
                        Box::new(Expr::Ident(Ident(String::from("b")))),
                    ),
                ),
                Box::new(Expr::Ident(Ident(String::from("c")))),
            ),
        )),
        ("a * b * c", Stmt::Expr(
            Expr::Infix(
                Infix::Multiply,
                Box::new(
                    Expr::Infix(
                        Infix::Multiply,
                        Box::new(Expr::Ident(Ident(String::from("a")))),
                        Box::new(Expr::Ident(Ident(String::from("b")))),
                    ),
                ),
                Box::new(Expr::Ident(Ident(String::from("c")))),
            ),
        )),
        ("a * b / c", Stmt::Expr(
            Expr::Infix(
                Infix::Divide,
                Box::new(
                    Expr::Infix(
                        Infix::Multiply,
                        Box::new(Expr::Ident(Ident(String::from("a")))),
                        Box::new(Expr::Ident(Ident(String::from("b")))),
                    ),
                ),
                Box::new(Expr::Ident(Ident(String::from("c")))),
            ),
        )),
        ("a + b / c", Stmt::Expr(
            Expr::Infix(
                Infix::Plus,
                Box::new(Expr::Ident(Ident(String::from("a")))),
                Box::new(
                    Expr::Infix(
                        Infix::Divide,
                        Box::new(Expr::Ident(Ident(String::from("b")))),
                        Box::new(Expr::Ident(Ident(String::from("c")))),
                    ),
                ),
            ),
        )),
        ("a + b * c + d / e - f", Stmt::Expr(
            Expr::Infix(
                Infix::Minus,
                Box::new(
                    Expr::Infix(
                        Infix::Plus,
                        Box::new(
                            Expr::Infix(
                                Infix::Plus,
                                Box::new(Expr::Ident(Ident(String::from("a")))),
                                Box::new(
                                    Expr::Infix(
                                        Infix::Multiply,
                                        Box::new(Expr::Ident(Ident(String::from("b")))),
                                        Box::new(Expr::Ident(Ident(String::from("c")))),
                                    ),
                                ),
                            ),
                        ),
                        Box::new(
                            Expr::Infix(
                                Infix::Divide,
                                Box::new(Expr::Ident(Ident(String::from("d")))),
                                Box::new(Expr::Ident(Ident(String::from("e")))),
                            ),
                        ),
                    ),
                ),
                Box::new(Expr::Ident(Ident(String::from("f")))),
            ),
        )),
        ("5 > 4 == 3 < 4", Stmt::Expr(
            Expr::Infix(
                Infix::Equal,
                Box::new(
                    Expr::Infix(
                        Infix::GreaterThan,
                        Box::new(Expr::Literal(Literal::Int(5))),
                        Box::new(Expr::Literal(Literal::Int(4))),
                    ),
                ),
                Box::new(
                    Expr::Infix(
                        Infix::LessThan,
                        Box::new(Expr::Literal(Literal::Int(3))),
                        Box::new(Expr::Literal(Literal::Int(4))),
                    ),
                ),
            ),
        )),
        ("5 < 4 != 3 > 4", Stmt::Expr(
            Expr::Infix(
                Infix::NotEqual,
                Box::new(
                    Expr::Infix(
                        Infix::LessThan,
                        Box::new(Expr::Literal(Literal::Int(5))),
                        Box::new(Expr::Literal(Literal::Int(4))),
                    ),
                ),
                Box::new(
                    Expr::Infix(
                        Infix::GreaterThan,
                        Box::new(Expr::Literal(Literal::Int(3))),
                        Box::new(Expr::Literal(Literal::Int(4))),
                    ),
                ),
            ),
        )),
        ("5 >= 4 == 3 <= 4", Stmt::Expr(
            Expr::Infix(
                Infix::Equal,
                Box::new(
                    Expr::Infix(
                        Infix::GreaterThanEqual,
                        Box::new(Expr::Literal(Literal::Int(5))),
                        Box::new(Expr::Literal(Literal::Int(4))),
                    ),
                ),
                Box::new(
                    Expr::Infix(
                        Infix::LessThanEqual,
                        Box::new(Expr::Literal(Literal::Int(3))),
                        Box::new(Expr::Literal(Literal::Int(4))),
                    ),
                ),
            ),
        )),
        ("5 <= 4 != 3 >= 4", Stmt::Expr(
            Expr::Infix(
                Infix::NotEqual,
                Box::new(
                    Expr::Infix(
                        Infix::LessThanEqual,
                        Box::new(Expr::Literal(Literal::Int(5))),
                        Box::new(Expr::Literal(Literal::Int(4))),
                    ),
                ),
                Box::new(
                    Expr::Infix(
                        Infix::GreaterThanEqual,
                        Box::new(Expr::Literal(Literal::Int(3))),
                        Box::new(Expr::Literal(Literal::Int(4))),
                    ),
                ),
            ),
        )),
        ("3 + 4 * 5 == 3 * 1 + 4 * 5", Stmt::Expr(
            Expr::Infix(
                Infix::Equal,
                Box::new(
                    Expr::Infix(
                        Infix::Plus,
                        Box::new(Expr::Literal(Literal::Int(3))),
                        Box::new(
                            Expr::Infix(
                                Infix::Multiply,
                                Box::new(Expr::Literal(Literal::Int(4))),
                                Box::new(Expr::Literal(Literal::Int(5))),
                            ),
                        ),
                    ),
                ),
                Box::new(
                    Expr::Infix(
                        Infix::Plus,
                        Box::new(
                            Expr::Infix(
                                Infix::Multiply,
                                Box::new(Expr::Literal(Literal::Int(3))),
                                Box::new(Expr::Literal(Literal::Int(1))),
                            ),
                        ),
                        Box::new(
                            Expr::Infix(
                                Infix::Multiply,
                                Box::new(Expr::Literal(Literal::Int(4))),
                                Box::new(Expr::Literal(Literal::Int(5))),
                            ),
                        ),
                    ),
                ),
            ),
        )),
        ("true", Stmt::Expr(
            Expr::Literal(Literal::Bool(true)),
        )),
        ("false", Stmt::Expr(
            Expr::Literal(Literal::Bool(false)),
        )),
        ("3 > 5 == false", Stmt::Expr(
            Expr::Infix(
                Infix::Equal,
                Box::new(
                    Expr::Infix(
                        Infix::GreaterThan,
                        Box::new(Expr::Literal(Literal::Int(3))),
                        Box::new(Expr::Literal(Literal::Int(5))),
                    ),
                ),
                Box::new(Expr::Literal(Literal::Bool(false))),
            ),
        )),
        ("3 < 5 == true", Stmt::Expr(
            Expr::Infix(
                Infix::Equal,
                Box::new(
                    Expr::Infix(
                        Infix::LessThan,
                        Box::new(Expr::Literal(Literal::Int(3))),
                        Box::new(Expr::Literal(Literal::Int(5))),
                    ),
                ),
                Box::new(Expr::Literal(Literal::Bool(true))),
            ),
        )),
        ("1 + (2 + 3) + 4", Stmt::Expr(
            Expr::Infix(
                Infix::Plus,
                Box::new(
                    Expr::Infix(
                        Infix::Plus,
                        Box::new(Expr::Literal(Literal::Int(1))),
                        Box::new(
                            Expr::Infix(
                                Infix::Plus,
                                Box::new(Expr::Literal(Literal::Int(2))),
                                Box::new(Expr::Literal(Literal::Int(3))),
                            ),
                        ),
                    ),
                ),
                Box::new(Expr::Literal(Literal::Int(4))),
            ),
        )),
        ("(5 + 5) * 2", Stmt::Expr(
            Expr::Infix(
                Infix::Multiply,
                Box::new(
                    Expr::Infix(
                        Infix::Plus,
                        Box::new(Expr::Literal(Literal::Int(5))),
                        Box::new(Expr::Literal(Literal::Int(5))),
                    ),
                ),
                Box::new(Expr::Literal(Literal::Int(2))),
            ),
        )),
        ("2 / (5 + 5)", Stmt::Expr(
            Expr::Infix(
                Infix::Divide,
                Box::new(Expr::Literal(Literal::Int(2))),
                Box::new(
                    Expr::Infix(
                        Infix::Plus,
                        Box::new(Expr::Literal(Literal::Int(5))),
                        Box::new(Expr::Literal(Literal::Int(5))),
                    ),
                ),
            ),
        )),
        ("-(5 + 5)", Stmt::Expr(
            Expr::Prefix(
                Prefix::Minus,
                Box::new(
                    Expr::Infix(
                        Infix::Plus,
                        Box::new(Expr::Literal(Literal::Int(5))),
                        Box::new(Expr::Literal(Literal::Int(5))),
                    ),
                ),
            ),
        )),
        ("!(true == true)", Stmt::Expr(
            Expr::Prefix(
                Prefix::Not,
                Box::new(
                    Expr::Infix(
                        Infix::Equal,
                        Box::new(Expr::Literal(Literal::Bool(true))),
                        Box::new(Expr::Literal(Literal::Bool(true))),
                    ),
                ),
            ),
        )),
    ];

    for (input, expect) in tests {
        let mut parser = Parser::new(Lexer::new(input));
        let program = parser.parse();

        check_parse_errors(&mut parser);

        assert_eq!(1, program.len());
        assert_eq!(expect, program[0]);
    }
}

