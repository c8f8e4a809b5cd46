//! A source formatter: prints a parsed program back with canonical spacing,
//! two-space indentation, and wrapping for long array and hash literals.
//! The formatter consumes the parser's trees through their public shape and
//! adds no language rules of its own.

use vstd::prelude::*;
use vstd::string::StringExecFns;
use vstd::string::StrSliceExecFns;
use crate::ast::{BlockStmt, Expr, Ident, Infix, Literal, Precedence, Prefix, Program, Stmt};
use crate::lexer::unescape::escape_str;
use crate::strutil::{int_to_string, push_char};

verus! {

/// Width bounds the formatter works toward.
struct FormatConfig {
    max_line_length: usize,
    max_hash_oneline: usize,
}

/// The formatter: the current indentation depth, the column the cursor
/// stands in, and the width bounds.
pub struct Formatter {
    indent: usize,
    column: usize,
    config: FormatConfig,
}

/// Addition that stops at the top instead of wrapping.
fn sat_add(a: usize, b: usize) -> (r: usize)
    ensures
        r as int == if a + b > usize::MAX {
            usize::MAX as int
        } else {
            a + b
        },
{
    if a > usize::MAX - b {
        usize::MAX
    } else {
        a + b
    }
}

impl Formatter {
    /// A formatter at the left margin.
    pub fn new() -> Formatter {
        Formatter {
            indent: 0,
            column: 1,
            config: FormatConfig { max_line_length: 80, max_hash_oneline: 3 },
        }
    }

    /// The binding strength an operator is printed at.
    fn infix_to_precedence(infix: &Infix) -> Precedence {
        match infix {
            Infix::Plus | Infix::Minus => Precedence::Sum,
            Infix::Multiply | Infix::Divide => Precedence::Product,
            Infix::LessThan | Infix::LessThanEqual => Precedence::LessGreater,
            Infix::GreaterThan | Infix::GreaterThanEqual => Precedence::LessGreater,
            Infix::Equal | Infix::NotEqual => Precedence::Equals,
        }
    }

    /// Statements whose expression form carries no trailing semicolon.
    fn ignore_semicolon_expr(expr: &Expr) -> bool {
        match expr {
            Expr::If { .. } => true,
            Expr::Func { .. } => true,
            _ => false,
        }
    }

    /// The whole program, formatted.
    pub fn format(&mut self, program: Program) -> String {
        self.format_block_stmt(&program)
    }

    /// Two spaces per indentation level; `back` steps one level out.
    fn indent_str(&self, back: bool) -> String {
        let mut n = self.indent;
        if back && n > 0 {
            n = n - 1;
        }
        let mut s = String::new();
        let mut i: usize = 0;
        while i < n
            decreases n - i,
        {
            push_char(&mut s, ' ');
            push_char(&mut s, ' ');
            i = i + 1;
        }
        s
    }

    /// The statements a block keeps once leading, trailing and doubled-up
    /// blank lines are dropped, as indices into the block.
    fn normalize_block_stmt(stmts: &BlockStmt) -> (keep: Vec<usize>)
        ensures
            forall|k: int| 0 <= k < keep@.len() ==> (#[trigger] keep@[k]) < stmts@.len(),
    {
        let mut out: Vec<usize> = Vec::new();
        let mut i: usize = 0;
        while i < stmts.len()
            invariant
                i <= stmts@.len(),
                forall|k: int| 0 <= k < out@.len() ==> (#[trigger] out@[k]) < stmts@.len(),
            decreases stmts@.len() - i,
        {
            let is_blank = matches!(&stmts[i], Stmt::Blank);
            let first = i == 0;
            let last = i + 1 == stmts.len();
            let prev_blank = i > 0 && matches!(&stmts[i - 1], Stmt::Blank);
            if !(is_blank && (first || last || prev_blank)) {
                out.push(i);
            }
            i = i + 1;
        }
        out
    }

    /// A block: one statement per line, blank markers as blank lines.
    fn format_block_stmt(&mut self, stmts: &BlockStmt) -> String
        decreases stmts@, 9int,
    {
        let keep = Self::normalize_block_stmt(stmts);
        self.format_kept_stmts(stmts, &keep, 0, String::new())
    }

    /// The kept statements of a block from `i` on, appended to `acc`.
    fn format_kept_stmts(
        &mut self,
        stmts: &BlockStmt,
        keep: &Vec<usize>,
        i: usize,
        acc: String,
    ) -> String
        requires
            forall|k: int| 0 <= k < keep@.len() ==> (#[trigger] keep@[k]) < stmts@.len(),
        decreases stmts@, 8int, keep@.len() - i,
    {
        if i >= keep.len() {
            return acc;
        }
        let mut acc = acc;
        let j = keep[i];
        self.column = sat_add(sat_add(self.indent, self.indent), 1);
        if i > 0 {
            push_char(&mut acc, '\n');
        }
        let is_blank = matches!(&stmts[j], Stmt::Blank);
        if !is_blank {
            let ind = self.indent_str(false);
            acc.append(ind.as_str());
        }
        let line = self.format_stmt(&stmts[j]);
        acc.append(line.as_str());
        self.format_kept_stmts(stmts, keep, i + 1, acc)
    }

    /// One statement.
    fn format_stmt(&mut self, stmt: &Stmt) -> String
        decreases stmt, 8int,
    {
        match stmt {
            Stmt::Let(ident, expr) => self.format_let_stmt(ident, expr),
            Stmt::Return(expr) => self.format_return_stmt(expr),
            Stmt::Expr(expr) => {
                if Self::ignore_semicolon_expr(expr) {
                    self.format_expr(expr, &Precedence::Lowest)
                } else {
                    let mut s = self.format_expr(expr, &Precedence::Lowest);
                    push_char(&mut s, ';');
                    s
                }
            },
            Stmt::Blank => String::new(),
        }
    }

    /// `let NAME = EXPR;`.
    fn format_let_stmt(&mut self, ident: &Ident, expr: &Expr) -> String
        decreases expr, 7int,
    {
        let ident_str = self.format_ident_expr(ident);
        let mut result = String::from_str("let ");
        result.append(ident_str.as_str());
        result.append(" = ");
        self.column = sat_add(self.column, result.as_str().unicode_len());
        let expr_str = self.format_expr(expr, &Precedence::Lowest);
        result.append(expr_str.as_str());
        push_char(&mut result, ';');
        result
    }

    /// `return EXPR;`.
    fn format_return_stmt(&mut self, expr: &Expr) -> String
        decreases expr, 7int,
    {
        let mut result = String::from_str("return ");
        self.column = sat_add(self.column, 7);
        let expr_str = self.format_expr(expr, &Precedence::Lowest);
        result.append(expr_str.as_str());
        push_char(&mut result, ';');
        result
    }

    /// One expression, parenthesized when the surrounding operator binds
    /// tighter.
    fn format_expr(&mut self, expr: &Expr, precedence: &Precedence) -> String
        decreases expr, 6int,
    {
        match expr {
            Expr::Ident(ident) => self.format_ident_expr(ident),
            Expr::Literal(literal) => self.format_literal(literal),
            Expr::Prefix(..) => self.format_prefix_expr(expr),
            Expr::Infix(..) => self.format_infix_expr(expr, precedence),
            Expr::Index(..) => self.format_index_expr(expr),
            Expr::If { .. } => self.format_if_expr(expr),
            Expr::Func { .. } => self.format_func_expr(expr),
            Expr::Call { .. } => self.format_call_expr(expr),
        }
    }

    /// An identifier.
    fn format_ident_expr(&mut self, ident: &Ident) -> String {
        let Ident(name) = ident;
        self.column = sat_add(self.column, name.as_str().unicode_len());
        name.clone()
    }

    /// A literal of any kind.
    fn format_literal(&mut self, literal: &Literal) -> String
        decreases literal, 5int,
    {
        match literal {
            Literal::Int(value) => self.format_int_literal(*value),
            Literal::String(value) => self.format_string_literal(value),
            Literal::Bool(value) => self.format_bool_literal(*value),
            Literal::Array(value) => self.format_array_literal(value, false),
            Literal::Hash(value) => self.format_hash_literal(value, false),
        }
    }

    fn format_int_literal(&mut self, value: i64) -> String {
        let result = int_to_string(value);
        self.column = sat_add(self.column, result.as_str().unicode_len());
        result
    }

    fn format_string_literal(&mut self, value: &String) -> String {
        let result = escape_str(value.as_str());
        self.column = sat_add(self.column, result.as_str().unicode_len());
        result
    }

    fn format_bool_literal(&mut self, value: bool) -> String {
        let result = if value {
            String::from_str("true")
        } else {
            String::from_str("false")
        };
        self.column = sat_add(self.column, result.as_str().unicode_len());
        result
    }

    /// An array literal: one line if it fits, otherwise one element per
    /// line, indented.
    fn format_array_literal(&mut self, arr: &Vec<Expr>, wrap: bool) -> String
        decreases arr@, if wrap {
            0int
        } else {
            1int
        },
    {
        let mut result = String::new();
        let total = arr.len();
        if wrap {
            self.indent = sat_add(self.indent, 1);
        }
        let mut i: usize = 0;
        while i < arr.len()
            decreases arr@, arr@.len() - i,
        {
            let expr_str = self.format_expr(&arr[i], &Precedence::Lowest);
            if wrap {
                if i == 0 {
                    push_char(&mut result, '\n');
                } else {
                    result.append(",\n");
                }
                let ind = self.indent_str(false);
                result.append(ind.as_str());
                result.append(expr_str.as_str());
                if i + 1 == total {
                    if self.indent > 0 {
                        self.indent = self.indent - 1;
                    }
                    push_char(&mut result, '\n');
                    let ind2 = self.indent_str(false);
                    result.append(ind2.as_str());
                }
            } else if i > 0 {
                result.append(", ");
                result.append(expr_str.as_str());
            } else {
                result.append(expr_str.as_str());
            }
            i = i + 1;
        }
        if !wrap && sat_add(
            sat_add(self.column, result.as_str().unicode_len()),
            2,
        ) > self.config.max_line_length {
            return self.format_array_literal(arr, true);
        }
        let mut out = String::from_str("[");
        out.append(result.as_str());
        out.append("]");
        out
    }

    /// A hash literal: one line with padding while it stays small and
    /// short, otherwise one pair per line, indented.
    fn format_hash_literal(&mut self, hash: &Vec<(Expr, Expr)>, wrap: bool) -> String
        decreases hash@, if wrap {
            0int
        } else {
            1int
        },
    {
        let mut result = String::new();
        let total = hash.len();
        if !wrap && total > self.config.max_hash_oneline {
            return self.format_hash_literal(hash, true);
        }
        if wrap {
            self.indent = sat_add(self.indent, 1);
        }
        let mut i: usize = 0;
        while i < hash.len()
            decreases hash@, hash@.len() - i,
        {
            let key_str = self.format_expr(&hash[i].0, &Precedence::Lowest);
            let value_str = self.format_expr(&hash[i].1, &Precedence::Lowest);
            if wrap {
                if i > 0 {
                    push_char(&mut result, ',');
                }
                push_char(&mut result, '\n');
                let ind = self.indent_str(false);
                result.append(ind.as_str());
                result.append(key_str.as_str());
                result.append(": ");
                result.append(value_str.as_str());
                if i + 1 == total {
                    if self.indent > 0 {
                        self.indent = self.indent - 1;
                    }
                    push_char(&mut result, '\n');
                    let ind2 = self.indent_str(false);
                    result.append(ind2.as_str());
                }
            } else {
                if i == 0 {
                    push_char(&mut result, ' ');
                } else {
                    result.append(", ");
                }
                result.append(key_str.as_str());
                result.append(": ");
                result.append(value_str.as_str());
                if i + 1 == total {
                    push_char(&mut result, ' ');
                }
            }
            i = i + 1;
        }
        if !wrap && sat_add(self.column, result.as_str().unicode_len())
            > self.config.max_line_length {
            return self.format_hash_literal(hash, true);
        }
        let mut out = String::from_str("{");
        out.append(result.as_str());
        out.append("}");
        out
    }

    /// A binary operation, with parentheses exactly where the context binds
    /// tighter than the operator.
    fn format_infix_expr(&mut self, expr: &Expr, precedence: &Precedence) -> String
        decreases expr, 5int,
    {
        match expr {
            Expr::Infix(infix, left, right) => {
                let current = Self::infix_to_precedence(infix);
                let left_str = self.format_expr(left, &current);
                let right_str = self.format_expr(right, &current);
                let mut body = String::new();
                body.append(left_str.as_str());
                push_char(&mut body, ' ');
                body.append(infix_text(infix));
                push_char(&mut body, ' ');
                body.append(right_str.as_str());
                if current.is_below(precedence) {
                    let mut out = String::from_str("(");
                    out.append(body.as_str());
                    out.append(")");
                    out
                } else {
                    body
                }
            },
            _ => String::new(),
        }
    }

    /// A prefix operation.
    fn format_prefix_expr(&mut self, expr: &Expr) -> String
        decreases expr, 5int,
    {
        match expr {
            Expr::Prefix(prefix, right) => {
                let right_str = self.format_expr(right, &Precedence::Prefix);
                let mut out = String::from_str(
                    match prefix {
                        Prefix::Plus => "+",
                        Prefix::Minus => "-",
                        Prefix::Not => "!",
                    },
                );
                out.append(right_str.as_str());
                out
            },
            _ => String::new(),
        }
    }

    /// An index form `target[index]`.
    fn format_index_expr(&mut self, expr: &Expr) -> String
        decreases expr, 5int,
    {
        match expr {
            Expr::Index(left, index) => {
                let left_str = self.format_expr(left, &Precedence::Lowest);
                let index_str = self.format_expr(index, &Precedence::Lowest);
                let mut out = String::new();
                out.append(left_str.as_str());
                push_char(&mut out, '[');
                out.append(index_str.as_str());
                push_char(&mut out, ']');
                out
            },
            _ => String::new(),
        }
    }

    /// An `if`, with each branch as an indented block.
    fn format_if_expr(&mut self, expr: &Expr) -> String
        decreases expr, 5int,
    {
        match expr {
            Expr::If { cond, consequence, alternative } => {
                let cond_str = self.format_expr(cond, &Precedence::Lowest);
                self.indent = sat_add(self.indent, 1);
                let cons_str = self.format_block_stmt(consequence);
                let result = match alternative {
                    Some(alt) => {
                        let alt_str = self.format_block_stmt(alt);
                        let ind = self.indent_str(true);
                        let mut out = String::from_str("if (");
                        out.append(cond_str.as_str());
                        out.append(") {\n");
                        out.append(cons_str.as_str());
                        push_char(&mut out, '\n');
                        out.append(ind.as_str());
                        out.append("} else {\n");
                        out.append(alt_str.as_str());
                        push_char(&mut out, '\n');
                        out.append(ind.as_str());
                        push_char(&mut out, '}');
                        out
                    },
                    None => {
                        let ind = self.indent_str(true);
                        let mut out = String::from_str("if (");
                        out.append(cond_str.as_str());
                        out.append(") {\n");
                        out.append(cons_str.as_str());
                        push_char(&mut out, '\n');
                        out.append(ind.as_str());
                        push_char(&mut out, '}');
                        out
                    },
                };
                if self.indent > 0 {
                    self.indent = self.indent - 1;
                }
                result
            },
            _ => String::new(),
        }
    }

    /// A function literal, its body as an indented block.
    fn format_func_expr(&mut self, expr: &Expr) -> String
        decreases expr, 5int,
    {
        match expr {
            Expr::Func { params, body } => {
                let mut params_str = String::new();
                let mut i: usize = 0;
                while i < params.len()
                    decreases params@.len() - i,
                {
                    if i > 0 {
                        params_str.append(", ");
                    }
                    let p = self.format_ident_expr(&params[i]);
                    params_str.append(p.as_str());
                    i = i + 1;
                }
                self.indent = sat_add(self.indent, 1);
                let body_str = self.format_block_stmt(body);
                if self.indent > 0 {
                    self.indent = self.indent - 1;
                }
                let ind = self.indent_str(false);
                let mut out = String::from_str("fn(");
                out.append(params_str.as_str());
                out.append(") {\n");
                out.append(body_str.as_str());
                push_char(&mut out, '\n');
                out.append(ind.as_str());
                push_char(&mut out, '}');
                out
            },
            _ => String::new(),
        }
    }

    /// A call form `callee(args)`.
    fn format_call_expr(&mut self, expr: &Expr) -> String
        decreases expr, 5int,
    {
        match expr {
            Expr::Call { func, args } => {
                let func_str = self.format_expr(func, &Precedence::Lowest);
                let args_str = self.format_call_args(args, 0, String::new());
                let mut out = String::new();
                out.append(func_str.as_str());
                push_char(&mut out, '(');
                out.append(args_str.as_str());
                push_char(&mut out, ')');
                out
            },
            _ => String::new(),
        }
    }
}

impl Formatter {
    /// The arguments of a call from `i` on, comma-separated, appended to
    /// `acc`.
    fn format_call_args(&mut self, args: &Vec<Expr>, i: usize, acc: String) -> String
        requires
            i <= args@.len(),
        decreases args@, 4int, args@.len() - i,
    {
        if i >= args.len() {
            return acc;
        }
        let mut acc = acc;
        if i > 0 {
            acc.append(", ");
        }
        let a = self.format_expr(&args[i], &Precedence::Lowest);
        acc.append(a.as_str());
        self.format_call_args(args, i + 1, acc)
    }
}

/// The spelling of a binary operator.
fn infix_text(op: &Infix) -> &'static str {
    match op {
        Infix::Plus => "+",
        Infix::Minus => "-",
        Infix::Divide => "/",
        Infix::Multiply => "*",
        Infix::Equal => "==",
        Infix::NotEqual => "!=",
        Infix::GreaterThanEqual => ">=",
        Infix::GreaterThan => ">",
        Infix::LessThanEqual => "<=",
        Infix::LessThan => "<",
    }
}

} // verus!
