//! Whole-pipeline scenarios and the behaviors the library's laws speak of,
//! checked on concrete values.

use pua_lang::ast::{Expr, Ident, Infix, Literal, Stmt};
use pua_lang::evaluator::builtins::new_builtins;
use pua_lang::evaluator::env::Env;
use pua_lang::evaluator::object::Object;
use pua_lang::evaluator::Evaluator;
use pua_lang::lexer::{extract_word, Lexer};
use pua_lang::lexer::unescape::{escape_str, unescape_str_or_byte_str_all};
use pua_lang::parser::Parser;
use pua_lang::token::Token;

fn eval(input: &str) -> Option<Object> {
    let mut parser = Parser::new(Lexer::new(input));
    let program = parser.parse();
    Evaluator::new(Env::from(new_builtins())).eval(program)
}

fn parse(input: &str) -> Vec<Stmt> {
    let mut parser = Parser::new(Lexer::new(input));
    let program = parser.parse();
    assert_eq!(0, parser.get_errors().len());
    program
}

#[test]
fn test_scenario_arithmetic() {
    assert_eq!(Some(Object::Int(15)), eval("5 + 5 * 2"));
}

#[test]
fn test_scenario_let_chain() {
    assert_eq!(Some(Object::Int(15)), eval("let a = 5; let b = a; let c = a + b + 5; c;"));
}

#[test]
fn test_scenario_adder_closure() {
    assert_eq!(
        Some(Object::Int(4)),
        eval("let newAdder = fn(x) { fn(y) { x + y } }; let addTwo = newAdder(2); addTwo(2);"),
    );
}

#[test]
fn test_scenario_nested_return() {
    assert_eq!(
        Some(Object::Int(10)),
        eval("if (10 > 1) { if (10 > 1) { return 10; } return 1; }"),
    );
}

#[test]
fn test_scenario_hello_world() {
    assert_eq!(
        Some(Object::String(String::from("Hello World!"))),
        eval("\"Hello\" + \" \" + \"World!\""),
    );
}

#[test]
fn test_scenario_cjk_fib() {
    assert_eq!(
        Some(Object::Int(1)),
        eval(
            "赋能 fib = 抓手(n) { 细分 (n 对齐 0) { 反哺 0; }; 细分 (n 对齐 1) { 反哺 1; }; 反哺 fib(n-1) + fib(n-2); }; fib(2);",
        ),
    );
}

#[test]
fn test_precedence_concrete() {
    // a + b * c groups the product first; (a + b) * c keeps the grouping
    assert_eq!(
        vec![Stmt::Expr(Expr::Infix(
            Infix::Plus,
            Box::new(Expr::Literal(Literal::Int(2))),
            Box::new(Expr::Infix(
                Infix::Multiply,
                Box::new(Expr::Literal(Literal::Int(3))),
                Box::new(Expr::Literal(Literal::Int(4))),
            )),
        ))],
        parse("2 + 3 * 4"),
    );
    assert_eq!(
        vec![Stmt::Expr(Expr::Infix(
            Infix::Multiply,
            Box::new(Expr::Infix(
                Infix::Plus,
                Box::new(Expr::Literal(Literal::Int(2))),
                Box::new(Expr::Literal(Literal::Int(3))),
            )),
            Box::new(Expr::Literal(Literal::Int(4))),
        ))],
        parse("(2 + 3) * 4"),
    );
}

#[test]
fn test_parse_deterministic() {
    // two runs over the same source give the same tree and the same errors
    let src = "let x = [1, {\"k\": 2}]; if (x) { x[0] } else { missing(";
    let mut p1 = Parser::new(Lexer::new(src));
    let prog1 = p1.parse();
    let errs1 = p1.get_errors();
    let mut p2 = Parser::new(Lexer::new(src));
    let prog2 = p2.parse();
    let errs2 = p2.get_errors();
    assert_eq!(prog1, prog2);
    assert_eq!(errs1.len(), errs2.len());
    for (a, b) in errs1.iter().zip(errs2.iter()) {
        assert_eq!(a.msg, b.msg);
        assert_eq!(a.got, b.got);
    }
}

#[test]
fn test_closure_law_samples() {
    for n in [-7i64, 0, 1, 41, 999_983] {
        let src = format!(
            "let make = fn(x) {{ fn(y) {{ x + y }} }}; let add2 = make(2); add2({});",
            n,
        );
        assert_eq!(Some(Object::Int(n + 2)), eval(&src));
    }
}

#[test]
fn test_return_propagation_depths() {
    // a return from the innermost truthy chain wins over everything after it
    let mut body = String::from("return 42;");
    for depth in 2..6 {
        body = format!("if (true) {{ {} }}", body);
        let src = format!("{} 7; 8; 9;", body);
        assert_eq!(Some(Object::Int(42)), eval(&src), "depth {}", depth);
    }
}

#[test]
fn test_error_short_circuit_everywhere() {
    let cases = [
        "[1, nope, 3]",
        "{1: nope}",
        "{nope: 1}",
        "nope + 1",
        "1 + nope",
        "-nope",
        "nope[0]",
        "[1][nope]",
        "if (nope) { 1 }",
        "let x = nope; 5;",
        "return nope; 5;",
        "len(nope)",
        "nope(1)",
        "fn(x) { x }(nope)",
    ];
    for src in cases {
        assert_eq!(
            Some(Object::Error(String::from("identifier not found: nope"))),
            eval(src),
            "case {}",
            src,
        );
    }
}

#[test]
fn test_array_bounds_edges() {
    assert_eq!(Some(Object::Null), eval("[][0]"));
    assert_eq!(Some(Object::Null), eval("[1, 2][2]"));
    assert_eq!(Some(Object::Null), eval("[1, 2][-1]"));
    assert_eq!(Some(Object::Int(2)), eval("[1, 2][1]"));
    assert_eq!(Some(Object::Null), eval("[1, 2, 3][99]"));
}

#[test]
fn test_hash_key_restriction_cases() {
    assert_eq!(
        Some(Object::Error(String::from("unusable as hash key: [1]"))),
        eval("{1: 2}[[1]]"),
    );
    assert_eq!(
        Some(Object::Error(String::from("unusable as hash key: null"))),
        eval("{1: 2}[first([])]"),
    );
    // an if that takes no branch has no value at all, so indexing with it
    // yields no value either
    assert_eq!(None, eval("{1: 2}[if (false) { 1 }]"));
    assert_eq!(Some(Object::Null), eval("{\"foo\": 5}[\"bar\"]"));
    assert_eq!(
        Some(Object::Error(String::from(
            "unusable as hash key: fn(x) { ... }",
        ))),
        eval("{\"name\": \"Monkey\"}[fn(x){x}]"),
    );
}

#[test]
fn test_hash_later_key_overwrites() {
    assert_eq!(Some(Object::Int(9)), eval("{1: 2, 1: 9}[1]"));
}

#[test]
fn test_division() {
    assert_eq!(Some(Object::Int(-2)), eval("-5 / 2"));
    assert_eq!(Some(Object::Int(2)), eval("5 / 2"));
    assert_eq!(
        Some(Object::Error(String::from("division by zero"))),
        eval("1 / 0"),
    );
}

#[test]
fn test_wrong_argument_counts_for_functions() {
    assert_eq!(
        Some(Object::Error(String::from("wrong number of arguments: 2 expected but 1 given"))),
        eval("let add = fn(x, y) { x + y }; add(1);"),
    );
    assert_eq!(
        Some(Object::Error(String::from("1 is not valid function"))),
        eval("1(2)"),
    );
}

#[test]
fn test_quit_builtin_values() {
    assert_eq!(Some(Object::Exit(0)), eval("quit()"));
    assert_eq!(Some(Object::Exit(3)), eval("quit(3); puts(1);"));
    assert_eq!(
        Some(Object::Error(String::from("argument to `quit` must be int. got \"x\""))),
        eval("quit(\"x\")"),
    );
}

#[test]
fn test_output_builtins() {
    let mut parser = Parser::new(Lexer::new("puts(1, \"a\"); print(\"raw\"); repr(\"x\")"));
    let program = parser.parse();
    let mut ev = Evaluator::new(Env::from(new_builtins()));
    let result = ev.eval(program);
    assert_eq!(Some(Object::String(String::from("\"x\""))), result);
    let lines = ev.take_output();
    assert_eq!(vec![String::from("1"), String::from("\"a\""), String::from("raw")], lines);
}

#[test]
fn test_str_and_repr() {
    assert_eq!(Some(Object::String(String::from("abc"))), eval("str(\"abc\")"));
    assert_eq!(Some(Object::String(String::from("5"))), eval("str(5)"));
    assert_eq!(Some(Object::String(String::from("\"abc\""))), eval("repr(\"abc\")"));
    assert_eq!(Some(Object::String(String::from("[1, 2]"))), eval("repr([1, 2])"));
}

#[test]
fn test_string_escapes() {
    assert_eq!(
        Some(Object::String(String::from("a\nb\tc\\d\"e"))),
        eval("\"a\\nb\\tc\\\\d\\\"e\""),
    );
    assert_eq!(Some(Object::String(String::from("A中"))), eval("\"\\x41\\u{4E2D}\""));
    assert_eq!(Some(Object::Int(1)), eval("len(\"\\x41\")"));
}

#[test]
fn test_unescape_bad_escape_collapses() {
    let raw = String::from("ab\\qcd");
    assert_eq!(
        String::from("<Lexer error: string: InvalidEscape>cd"),
        unescape_str_or_byte_str_all(&raw),
    );
}

#[test]
fn test_escape_str_round() {
    assert_eq!(String::from("\"a\\nb\""), escape_str("a\nb"));
    assert_eq!(String::from("\"plain\""), escape_str("plain"));
}

#[test]
fn test_unterminated_string() {
    let mut lexer = Lexer::new("\"abc");
    assert_eq!(
        Token::String(String::from("<Lexer error: string: premature EOF>")),
        lexer.next_token(),
    );
    assert_eq!(Token::Eof, lexer.next_token());
}

#[test]
fn test_nfc_normalization_of_identifiers() {
    // an identifier written with a combining accent binds and resolves the
    // same as its precomposed spelling
    let src = "let cafe\u{301} = 7; caf\u{e9};";
    assert_eq!(Some(Object::Int(7)), eval(src));
}

#[test]
fn test_unicode_identifier_lexes() {
    // a non-ASCII XID_Start character opens an identifier; if the table
    // bridge answered falsely the token would be Illegal
    let mut lexer = Lexer::new("λx");
    assert_eq!(Token::Ident(String::from("λx")), lexer.next_token());
    assert_eq!(Token::Eof, lexer.next_token());
}

#[test]
fn test_lexer_totality_on_odd_input() {
    // anything, including unrecognized characters and stray quotes, ends in Eof
    let mut lexer = Lexer::new("§ @ \"open");
    let mut count = 0;
    loop {
        let t = lexer.next_token();
        count += 1;
        assert!(count < 32);
        if t == Token::Eof {
            break;
        }
    }
}

#[test]
fn test_extract_word_finds_word_start() {
    let (start, word) = extract_word("let fo", 6);
    assert_eq!(4, start);
    assert_eq!(String::from("fo"), word);
    let (start2, word2) = extract_word("foo", 3);
    assert_eq!(0, start2);
    assert_eq!(String::from("foo"), word2);
}

#[test]
fn test_incomplete_input_signal() {
    // an unexpected-token error whose `got` is Eof tells a driver the input
    // merely stopped early
    let mut parser = Parser::new(Lexer::new("let x = "));
    let _ = parser.parse();
    let errors = parser.get_errors();
    assert!(errors.len() > 0);
    assert_eq!(Token::Eof, errors[0].got);
}

#[test]
fn test_parse_error_message_form() {
    let mut parser = Parser::new(Lexer::new("let x 5;"));
    let _ = parser.parse();
    let errors = parser.get_errors();
    assert_eq!(1, errors.len());
    assert_eq!(
        String::from("expected next token to be Assign, got Int(5) instead"),
        errors[0].msg,
    );
}

#[test]
fn test_blank_statements_preserved() {
    assert_eq!(
        vec![
            Stmt::Expr(Expr::Literal(Literal::Int(1))),
            Stmt::Blank,
            Stmt::Expr(Expr::Literal(Literal::Int(2))),
        ],
        parse("1;\n\n2;"),
    );
}

#[test]
fn test_int_edge_values() {
    assert_eq!(Some(Object::Int(i64::MAX)), eval("9223372036854775807"));
    assert_eq!(Some(Object::Int(i64::MIN)), eval("-9223372036854775807 - 1"));
    assert_eq!(Some(Object::Int(i64::MIN)), eval("(-9223372036854775807 - 1) / -1"));
}

#[test]
fn test_env_shared_frames() {
    // both closures see later bindings in the frame they captured
    let src = r#"
let counter = fn(x) { fn() { x } };
let a = counter(1);
let b = counter(2);
a() + b();
"#;
    assert_eq!(Some(Object::Int(3)), eval(src));
}
