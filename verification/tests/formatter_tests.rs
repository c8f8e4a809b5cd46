//! The formatter: parsed programs printed back with canonical layout.

use pua_lang::formatter::Formatter;
use pua_lang::lexer::Lexer;
use pua_lang::parser::Parser;

fn format(input: &str) -> String {
    Formatter::new().format(Parser::new(Lexer::new(input)).parse())
}

#[test]
fn test_blank() {
    let tests = vec![
        (
            r#"1000;

1000;


1000;



1000;"#,
            r#"1000;

1000;

1000;

1000;"#,
        ),
        (
            r#"if (x) {

  1000;


  1000;

}"#,
            r#"if (x) {
  1000;

  1000;
}"#,
        ),
    ];

    for (input, expect) in tests {
        assert_eq!(String::from(expect), format(input));
    }
}

#[test]
fn test_literal() {
    let tests = vec![
        ("1000", "1000;"),
        ("\"foo\"", "\"foo\";"),
        ("true", "true;"),
        ("false", "false;"),
        (
            "[ 0 , 1  ,  \"str\",true  ,   false    ]",
            "[0, 1, \"str\", true, false];",
        ),
        (
            "[123456789, 123456789, 123456789, 123456789, 123456789, 123456789, 123456789, 123456789, 123456789]",
            r#"[
  123456789,
  123456789,
  123456789,
  123456789,
  123456789,
  123456789,
  123456789,
  123456789,
  123456789
];"#,
        ),
        (
            "[\"124567890124567890124567890124567890124567890124567890124567890124567890124567890\"]",
            r#"[
  "124567890124567890124567890124567890124567890124567890124567890124567890124567890"
];"#,
        ),
        (
            "{      \"key\"   : \"value\"}",
            "{ \"key\": \"value\" };",
        ),
        (
            "{1:1, 2:2, 3:3}",
            "{ 1: 1, 2: 2, 3: 3 };",
        ),
        (
            "{1:1, 2:2, 3:3, 4:4}",
            r#"{
  1: 1,
  2: 2,
  3: 3,
  4: 4
};"#,
        ),
        (
            "{\"123456789123456789123456789123456789123456789123456789123456789123456789\": true}",
            r#"{
  "123456789123456789123456789123456789123456789123456789123456789123456789": true
};"#,
        ),
    ];

    for (input, expect) in tests {
        assert_eq!(String::from(expect), format(input));
    }
}

#[test]
fn test_let_stmt() {
    let tests = vec![
        ("let    foo= 1000", "let foo = 1000;"),
        (
            "let    test        =    \"string\"",
            "let test = \"string\";",
        ),
        (
            "let   hoge =[0,1, 2 ,3  ]",
            "let hoge = [0, 1, 2, 3];",
        ),
        (
            "let abcdefghij = [12345678, 12345678, 12345678, 12345678, 12345678, 12345678, 1234];",
            r#"let abcdefghij = [
  12345678,
  12345678,
  12345678,
  12345678,
  12345678,
  12345678,
  1234
];"#,
        ),
        (
            "let aaaaaaaaaaaaaaaaaaaaaaaaaaaaaaaaaaaaaaaaaaaaaaaaaaaaa = {\"fooo\": \"abcdefg\"};",
            r#"let aaaaaaaaaaaaaaaaaaaaaaaaaaaaaaaaaaaaaaaaaaaaaaaaaaaaa = {
  "fooo": "abcdefg"
};"#
        ),
    ];

    for (input, expect) in tests {
        assert_eq!(String::from(expect), format(input));
    }
}

#[test]
fn test_return_stmt() {
    let tests = vec![
        ("return   100", "return 100;"),
        ("return [100,100]", "return [100, 100];"),
        ("return [\"aaaaaaaaaaaaaaaaaaaaaaaaaaaaaaaaaaaaaaaaaaaaaaaaaaaaaaaaaaaaaaaaaaaaaa\"]", r#"return [
  "aaaaaaaaaaaaaaaaaaaaaaaaaaaaaaaaaaaaaaaaaaaaaaaaaaaaaaaaaaaaaaaaaaaaaa"
];"#),
    ];

    for (input, expect) in tests {
        assert_eq!(String::from(expect), format(input));
    }
}

#[test]
fn test_operator() {
    let tests = vec![
        // infix
        ("1+1", "1 + 1;"),
        ("(2+    2)", "2 + 2;"),
        ("(2 + 2)   * 5", "(2 + 2) * 5;"),
        ("2/(5+5  )", "2 / (5 + 5);"),
        ("2   / 5+5  ", "2 / 5 + 5;"),
        // prefix
        ("-  5", "-5;"),
        ("! true", "!true;"),
        ("-(  4*    5   )", "-(4 * 5);"),
        ("!((10-2)  / 4)", "!((10 - 2) / 4);"),
    ];

    for (input, expect) in tests {
        assert_eq!(String::from(expect), format(input));
    }
}

#[test]
fn test_index_expr() {
    let tests = vec![
        ("foo[ 0  ]", "foo[0];"),
        ("foo[   1*2 ]", "foo[1 * 2];"),
        ("foo [   \"key\" ]", "foo[\"key\"];"),
    ];

    for (input, expect) in tests {
        assert_eq!(String::from(expect), format(input));
    }
}

#[test]
fn test_if_expr() {
    let tests = vec![
        (
            "if(x){x}",
            r#"if (x) {
  x;
}"#,
        ),
        (
            "if(x){true}else{false}",
            r#"if (x) {
  true;
} else {
  false;
}"#,
        ),
        (
            r#"if (x) {
  let arr = [123456789, 123456789, 123456789, 123456789, 123456789, 123456789, 123456789];
  let obj = {"keeeeeeeeeeeeeeeeeeeeeeeeeeeeeeeeeeeeeeey": "valueeeeeeeeeeeeeeeeeeeeeeee"};
}"#,
            r#"if (x) {
  let arr = [
    123456789,
    123456789,
    123456789,
    123456789,
    123456789,
    123456789,
    123456789
  ];
  let obj = {
    "keeeeeeeeeeeeeeeeeeeeeeeeeeeeeeeeeeeeeeey": "valueeeeeeeeeeeeeeeeeeeeeeee"
  };
}"#,
        ),
        (
            r#"if(x){
if(         y){if(z)        { z; }}
}"#,
            r#"if (x) {
  if (y) {
    if (z) {
      z;
    }
  }
}"#,
        ),
        (
            r#"if(x){if(y){if(z){z;}}else{if(z){z;}}}else{if(y){if(z){z;}}else{if(z){z; }
}
}"#,
            r#"if (x) {
  if (y) {
    if (z) {
      z;
    }
  } else {
    if (z) {
      z;
    }
  }
} else {
  if (y) {
    if (z) {
      z;
    }
  } else {
    if (z) {
      z;
    }
  }
}"#,
        ),
    ];

    for (input, expect) in tests {
        assert_eq!(String::from(expect), format(input));
    }
}

#[test]
fn test_func_expr() {
    let tests = vec![
        (
            "fn (  x ){     x}",
            r#"fn(x) {
  x;
}"#,
        ),
        (
            r#"fn   (x)        {
fn    (y) {y;}
}"#,
            r#"fn(x) {
  fn(y) {
    y;
  }
}"#,
        ),
    ];

    for (input, expect) in tests {
        assert_eq!(String::from(expect), format(input));
    }
}

#[test]
fn test_call_expr() {
    let tests = vec![
        ("foo(    x)", "foo(x);"),
        ("foo(1 *        1)", "foo(1 * 1);"),
        ("foo((2 * 2 * 2))", "foo(2 * 2 * 2);"),
        ("foo(x,y,z)", "foo(x, y, z);"),
        ("arr[  \"hoge\" ](x,y,z)", "arr[\"hoge\"](x, y, z);"),
    ];

    for (input, expect) in tests {
        assert_eq!(String::from(expect), format(input));
    }
}

#[test]
fn test_block_stmt() {
    let tests = vec![(
        "1000; 1000; 1000;",
        r#"1000;
1000;
1000;"#,
    )];

    for (input, expect) in tests {
        assert_eq!(String::from(expect), format(input));
    }
}

