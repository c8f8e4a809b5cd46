//! The Pratt parser: two tokens of lookahead over the token stream, one
//! prefix rule per token kind, and precedence climbing for the infix
//! operators. The whole grammar also exists as a family of specification
//! functions, and every parsing method is proved to return exactly what they
//! describe; parsing is therefore a mathematical function of the tokens.

use vstd::prelude::*;
use vstd::string::StringExecFns;
use crate::ast::{
    block_view, block_view_of_seq, expr_view, exprs_view_of_seq, lemma_block_view_push,
    lemma_exprs_view_push, lemma_pairs_view_push, literal_view, pairs_view_of_seq, stmt_view,
    BlockStmt, Expr, ExprV, Ident, Infix, Literal, LiteralV, Precedence, Prefix, Program, Stmt,
    StmtV,
};
use crate::lexer::unescape::{escape_str, escape_str_spec};
use crate::lexer::Lexer;
use crate::strutil::{dec_int, int_to_string};
use crate::token::{Token, TokenV};

verus! {

/// The one kind of parse error.
#[derive(Debug, PartialEq, Clone, Copy)]
pub enum ParseErrorKind {
    UnexpectedToken,
}

/// A parse error: its kind, a human-readable message, and the token that was
/// actually seen (an `Eof` there tells an interactive caller that the input
/// just stopped too early).
#[derive(Debug, PartialEq)]
pub struct ParseError {
    pub kind: ParseErrorKind,
    pub msg: String,
    pub got: Token,
}

/// The mathematical image of a parse error.
pub struct ParseErrorV {
    pub msg: Seq<char>,
    pub got: TokenV,
}

impl View for ParseError {
    type V = ParseErrorV;

    open spec fn view(&self) -> ParseErrorV {
        ParseErrorV { msg: self.msg@, got: self.got@ }
    }
}

impl ParseError {
    fn new(kind: ParseErrorKind, msg: String, got: Token) -> (e: ParseError)
        ensures
            e@ == (ParseErrorV { msg: msg@, got: got@ }),
            e.kind == kind,
    {
        ParseError { kind, msg, got }
    }

    /// An owned copy with the same image.
    pub fn dup(&self) -> (e: ParseError)
        ensures
            e@ == self@,
            e.kind == self.kind,
    {
        ParseError { kind: self.kind, msg: self.msg.clone(), got: self.got.dup() }
    }
}

pub type ParseErrors = Vec<ParseError>;

/// The rendering of a token in parse error messages.
pub open spec fn token_debug_spec(t: TokenV) -> Seq<char> {
    match t {
        TokenV::Illegal => "Illegal"@,
        TokenV::Blank => "Blank"@,
        TokenV::Eof => "Eof"@,
        TokenV::Ident(s) => "Ident("@ + escape_str_spec(s) + ")"@,
        TokenV::Int(i) => "Int("@ + dec_int(i as int) + ")"@,
        TokenV::String(s) => "String("@ + escape_str_spec(s) + ")"@,
        TokenV::Bool(b) => if b {
            "Bool(true)"@
        } else {
            "Bool(false)"@
        },
        TokenV::Assign => "Assign"@,
        TokenV::If => "If"@,
        TokenV::Else => "Else"@,
        TokenV::Plus => "Plus"@,
        TokenV::Minus => "Minus"@,
        TokenV::Bang => "Bang"@,
        TokenV::Asterisk => "Asterisk"@,
        TokenV::Slash => "Slash"@,
        TokenV::Equal => "Equal"@,
        TokenV::NotEqual => "NotEqual"@,
        TokenV::LessThan => "LessThan"@,
        TokenV::LessThanEqual => "LessThanEqual"@,
        TokenV::GreaterThan => "GreaterThan"@,
        TokenV::GreaterThanEqual => "GreaterThanEqual"@,
        TokenV::Comma => "Comma"@,
        TokenV::Colon => "Colon"@,
        TokenV::Semicolon => "Semicolon"@,
        TokenV::Lparen => "Lparen"@,
        TokenV::Rparen => "Rparen"@,
        TokenV::Lbrace => "Lbrace"@,
        TokenV::Rbrace => "Rbrace"@,
        TokenV::Lbracket => "Lbracket"@,
        TokenV::Rbracket => "Rbracket"@,
        TokenV::Func => "Func"@,
        TokenV::Let => "Let"@,
        TokenV::Return => "Return"@,
    }
}

/// The error recorded when the token after the cursor is not the one the
/// grammar demands.
pub open spec fn err_next_token_spec(want: TokenV, got: TokenV) -> ParseErrorV {
    ParseErrorV {
        msg: "expected next token to be "@ + token_debug_spec(want) + ", got "@ + token_debug_spec(
            got,
        ) + " instead"@,
        got,
    }
}

/// The error recorded when no prefix rule matches the current token.
pub open spec fn err_no_prefix_spec(got: TokenV) -> ParseErrorV {
    ParseErrorV {
        msg: "no prefix parse function for  \""@ + token_debug_spec(got) + "\" found"@,
        got,
    }
}

/// The token at `p`, with `Eof` past the end.
pub open spec fn at_tok(ts: Seq<TokenV>, p: int) -> TokenV {
    if 0 <= p < ts.len() {
        ts[p]
    } else {
        TokenV::Eof
    }
}

/// The token one past `p`.
pub open spec fn peek_tok(ts: Seq<TokenV>, p: int) -> TokenV {
    at_tok(ts, p + 1)
}

/// One step forward, stopping at the end of the stream.
pub open spec fn bump_s(ts: Seq<TokenV>, p: int) -> int {
    if p < ts.len() {
        p + 1
    } else {
        p
    }
}

/// A position a subparse returned, forced forward to at least `p_old` (a
/// subparse never moves backwards; this keeps the recursion well-founded).
pub open spec fn adv(p_old: int, p_new: int) -> int {
    if p_new < p_old {
        p_old
    } else {
        p_new
    }
}

/// As `adv`, but also strictly past `p_old`: the progress every loop of the
/// grammar makes.
pub open spec fn adv_strict(ts: Seq<TokenV>, p_old: int, p_new: int) -> int {
    if p_new <= p_old || p_new > ts.len() {
        p_old + 1
    } else {
        p_new
    }
}

/// A returned position kept between `p_old` and one past the stream.
pub open spec fn adv_in(ts: Seq<TokenV>, p_old: int, p_new: int) -> int {
    if p_new < p_old {
        p_old
    } else if p_new > ts.len() + 1 {
        ts.len() as int + 1
    } else {
        p_new
    }
}

/// The binding strength the climbing loop assigns to a token.
pub open spec fn prec_of(t: TokenV) -> Precedence {
    match t {
        TokenV::Equal => Precedence::Equals,
        TokenV::NotEqual => Precedence::Equals,
        TokenV::LessThan => Precedence::LessGreater,
        TokenV::LessThanEqual => Precedence::LessGreater,
        TokenV::GreaterThan => Precedence::LessGreater,
        TokenV::GreaterThanEqual => Precedence::LessGreater,
        TokenV::Plus => Precedence::Sum,
        TokenV::Minus => Precedence::Sum,
        TokenV::Slash => Precedence::Product,
        TokenV::Asterisk => Precedence::Product,
        TokenV::Lbracket => Precedence::Index,
        TokenV::Lparen => Precedence::Call,
        _ => Precedence::Lowest,
    }
}

/// The infix operator a token stands for, if any.
pub open spec fn infix_of(t: TokenV) -> Option<Infix> {
    match t {
        TokenV::Plus => Some(Infix::Plus),
        TokenV::Minus => Some(Infix::Minus),
        TokenV::Slash => Some(Infix::Divide),
        TokenV::Asterisk => Some(Infix::Multiply),
        TokenV::Equal => Some(Infix::Equal),
        TokenV::NotEqual => Some(Infix::NotEqual),
        TokenV::LessThan => Some(Infix::LessThan),
        TokenV::LessThanEqual => Some(Infix::LessThanEqual),
        TokenV::GreaterThan => Some(Infix::GreaterThan),
        TokenV::GreaterThanEqual => Some(Infix::GreaterThanEqual),
        _ => None,
    }
}

/// Whether the climbing loop treats a token as a binary operator.
pub open spec fn is_binary_tok(t: TokenV) -> bool {
    infix_of(t) is Some
}

/// Consuming the expected token: on a match the cursor moves past it, else
/// the mismatch is recorded and the cursor stays.
pub open spec fn ps_expect(ts: Seq<TokenV>, p: int, want: TokenV, errs: Seq<ParseErrorV>) -> (
    bool,
    Seq<ParseErrorV>,
    int,
) {
    if peek_tok(ts, p) == want {
        (true, errs, bump_s(ts, p))
    } else {
        (false, errs.push(err_next_token_spec(want, peek_tok(ts, p))), p)
    }
}

/// A whole program: statements until the end of the stream.
pub open spec fn ps_parse_from(
    ts: Seq<TokenV>,
    p: int,
    prog: Seq<StmtV>,
    errs: Seq<ParseErrorV>,
) -> (Seq<StmtV>, Seq<ParseErrorV>, int)
    decreases ts.len() + 1 - p, 12int when 0 <= p <= ts.len()
{
    if at_tok(ts, p) is Eof {
        (prog, errs, p)
    } else {
        let (st, errs1, p1) = ps_stmt(ts, p, errs);
        let prog1 = match st {
            Some(s) => prog.push(s),
            None => prog,
        };
        let p2 = adv_strict(ts, p, bump_s(ts, adv(p, p1)));
        ps_parse_from(ts, p2, prog1, errs1)
    }
}

/// A brace-delimited block: the cursor stands on the opening brace; one bump,
/// then statements until the closing brace or the end.
pub open spec fn ps_block(ts: Seq<TokenV>, p: int, errs: Seq<ParseErrorV>) -> (
    Seq<StmtV>,
    Seq<ParseErrorV>,
    int,
)
    decreases ts.len() + 1 - p, 11int when 0 <= p <= ts.len()
{
    ps_block_from(ts, bump_s(ts, p), Seq::empty(), errs)
}

pub open spec fn ps_block_from(
    ts: Seq<TokenV>,
    p: int,
    block: Seq<StmtV>,
    errs: Seq<ParseErrorV>,
) -> (Seq<StmtV>, Seq<ParseErrorV>, int)
    decreases ts.len() + 1 - p, 10int when 0 <= p <= ts.len()
{
    if at_tok(ts, p) is Rbrace || at_tok(ts, p) is Eof {
        (block, errs, p)
    } else {
        let (st, errs1, p1) = ps_stmt(ts, p, errs);
        let block1 = match st {
            Some(s) => block.push(s),
            None => block,
        };
        let p2 = adv_strict(ts, p, bump_s(ts, adv(p, p1)));
        ps_block_from(ts, p2, block1, errs1)
    }
}

/// One statement, dispatched on the current token.
pub open spec fn ps_stmt(ts: Seq<TokenV>, p: int, errs: Seq<ParseErrorV>) -> (
    Option<StmtV>,
    Seq<ParseErrorV>,
    int,
)
    decreases ts.len() + 1 - p, 9int when 0 <= p <= ts.len()
{
    match at_tok(ts, p) {
        TokenV::Let => ps_let_stmt(ts, p, errs),
        TokenV::Return => ps_return_stmt(ts, p, errs),
        TokenV::Blank => (Some(StmtV::Blank), errs, p),
        _ => ps_expr_stmt(ts, p, errs),
    }
}

/// `let NAME = EXPR [;]`: a missing name gives the statement up silently, a
/// missing `=` records the mismatch.
pub open spec fn ps_let_stmt(ts: Seq<TokenV>, p: int, errs: Seq<ParseErrorV>) -> (
    Option<StmtV>,
    Seq<ParseErrorV>,
    int,
)
    decreases ts.len() + 1 - p, 8int when 0 <= p <= ts.len()
{
    match peek_tok(ts, p) {
        TokenV::Ident(name) => {
            let p1 = bump_s(ts, p);
            let (ok, errs1, p2) = ps_expect(ts, p1, TokenV::Assign, errs);
            if !ok {
                (None, errs1, p2)
            } else {
                let p3 = bump_s(ts, adv(p, p2));
                let (e, errs2, p4) = ps_expr(ts, p3, Precedence::Lowest, errs1);
                match e {
                    None => (None, errs2, p4),
                    Some(ex) => {
                        let p5 = adv(p, p4);
                        if peek_tok(ts, p5) is Semicolon {
                            (Some(StmtV::Let(name, ex)), errs2, bump_s(ts, p5))
                        } else {
                            (Some(StmtV::Let(name, ex)), errs2, p5)
                        }
                    },
                }
            }
        },
        _ => (None, errs, p),
    }
}

/// `return EXPR [;]`.
pub open spec fn ps_return_stmt(ts: Seq<TokenV>, p: int, errs: Seq<ParseErrorV>) -> (
    Option<StmtV>,
    Seq<ParseErrorV>,
    int,
)
    decreases ts.len() + 1 - p, 8int when 0 <= p <= ts.len()
{
    let p1 = adv_strict(ts, p, bump_s(ts, p));
    let (e, errs1, p2) = ps_expr(ts, p1, Precedence::Lowest, errs);
    match e {
        None => (None, errs1, p2),
        Some(ex) => {
            let p3 = adv(p, p2);
            if peek_tok(ts, p3) is Semicolon {
                (Some(StmtV::Return(ex)), errs1, bump_s(ts, p3))
            } else {
                (Some(StmtV::Return(ex)), errs1, p3)
            }
        },
    }
}

/// A bare expression as a statement, with its optional semicolon.
pub open spec fn ps_expr_stmt(ts: Seq<TokenV>, p: int, errs: Seq<ParseErrorV>) -> (
    Option<StmtV>,
    Seq<ParseErrorV>,
    int,
)
    decreases ts.len() + 1 - p, 8int when 0 <= p <= ts.len()
{
    let (e, errs1, p1) = ps_expr(ts, p, Precedence::Lowest, errs);
    match e {
        None => (None, errs1, p1),
        Some(ex) => {
            let p2 = adv(p, p1);
            if peek_tok(ts, p2) is Semicolon {
                (Some(StmtV::Expr(ex)), errs1, bump_s(ts, p2))
            } else {
                (Some(StmtV::Expr(ex)), errs1, p2)
            }
        },
    }
}

/// An expression at a given minimal binding strength: one prefix rule, then
/// the climbing loop.
#[verifier::opaque]
pub open spec fn ps_expr(ts: Seq<TokenV>, p: int, prec: Precedence, errs: Seq<ParseErrorV>) -> (
    Option<ExprV>,
    Seq<ParseErrorV>,
    int,
)
    decreases ts.len() + 1 - p, 7int when 0 <= p <= ts.len()
{
    let (left, errs1, p1) = match at_tok(ts, p) {
        TokenV::Ident(name) => (Some(ExprV::Ident(name)), errs, p),
        TokenV::Int(i) => (Some(ExprV::Literal(LiteralV::Int(i))), errs, p),
        TokenV::String(s) => (Some(ExprV::Literal(LiteralV::String(s))), errs, p),
        TokenV::Bool(b) => (Some(ExprV::Literal(LiteralV::Bool(b))), errs, p),
        TokenV::Lbracket => ps_array_expr(ts, p, errs),
        TokenV::Lbrace => ps_hash_expr(ts, p, errs),
        TokenV::Bang => ps_prefix_expr(ts, p, errs),
        TokenV::Minus => ps_prefix_expr(ts, p, errs),
        TokenV::Plus => ps_prefix_expr(ts, p, errs),
        TokenV::Lparen => ps_grouped_expr(ts, p, errs),
        TokenV::If => ps_if_expr(ts, p, errs),
        TokenV::Func => ps_func_expr(ts, p, errs),
        _ => (None, errs.push(err_no_prefix_spec(at_tok(ts, p))), p),
    };
    match left {
        None => (None, errs1, adv(p, p1)),
        Some(l) => ps_climb(ts, adv_in(ts, p, p1), l, prec, errs1),
    }
}

/// The climbing loop: while the token after the cursor binds tighter than
/// `prec` (and is no semicolon), fold it into the expression built so far.
#[verifier::opaque]
pub open spec fn ps_climb(
    ts: Seq<TokenV>,
    p: int,
    left: ExprV,
    prec: Precedence,
    errs: Seq<ParseErrorV>,
) -> (Option<ExprV>, Seq<ParseErrorV>, int)
    decreases ts.len() + 1 - p, 6int when 0 <= p <= ts.len()
{
    let pk = peek_tok(ts, p);
    if !(pk is Semicolon) && prec.rank() < prec_of(pk).rank() {
        if is_binary_tok(pk) {
            let (r, errs1, p1) = ps_infix_expr(ts, bump_s(ts, p), left, errs);
            match r {
                None => (None, errs1, adv(p, p1)),
                Some(l2) => ps_climb(ts, adv_strict(ts, p, p1), l2, prec, errs1),
            }
        } else if pk is Lbracket {
            let (r, errs1, p1) = ps_index_expr(ts, bump_s(ts, p), left, errs);
            match r {
                None => (None, errs1, adv(p, p1)),
                Some(l2) => ps_climb(ts, adv_strict(ts, p, p1), l2, prec, errs1),
            }
        } else if pk is Lparen {
            let (r, errs1, p1) = ps_call_expr(ts, bump_s(ts, p), left, errs);
            match r {
                None => (None, errs1, adv(p, p1)),
                Some(l2) => ps_climb(ts, adv_strict(ts, p, p1), l2, prec, errs1),
            }
        } else {
            (Some(left), errs, p)
        }
    } else {
        (Some(left), errs, p)
    }
}

/// A binary operator fold: the cursor stands on the operator; the right side
/// parses at the operator's own strength (left association).
pub open spec fn ps_infix_expr(
    ts: Seq<TokenV>,
    p: int,
    left: ExprV,
    errs: Seq<ParseErrorV>,
) -> (Option<ExprV>, Seq<ParseErrorV>, int)
    decreases ts.len() + 1 - p, 5int when 0 <= p <= ts.len()
{
    match infix_of(at_tok(ts, p)) {
        None => (None, errs, p),
        Some(op) => {
            let prec = prec_of(at_tok(ts, p));
            let p1 = adv_strict(ts, p, bump_s(ts, p));
            let (r, errs1, p2) = ps_expr(ts, p1, prec, errs);
            match r {
                None => (None, errs1, p2),
                Some(right) => (
                    Some(ExprV::Infix(op, Box::new(left), Box::new(right))),
                    errs1,
                    p2,
                ),
            }
        },
    }
}

/// An index fold: the cursor stands on the opening bracket.
pub open spec fn ps_index_expr(
    ts: Seq<TokenV>,
    p: int,
    left: ExprV,
    errs: Seq<ParseErrorV>,
) -> (Option<ExprV>, Seq<ParseErrorV>, int)
    decreases ts.len() + 1 - p, 5int when 0 <= p <= ts.len()
{
    let p1 = adv_strict(ts, p, bump_s(ts, p));
    let (r, errs1, p2) = ps_expr(ts, p1, Precedence::Lowest, errs);
    match r {
        None => (None, errs1, p2),
        Some(ix) => {
            let p3 = adv(p, p2);
            let (ok, errs2, p4) = ps_expect(ts, p3, TokenV::Rbracket, errs1);
            if ok {
                (Some(ExprV::Index(Box::new(left), Box::new(ix))), errs2, p4)
            } else {
                (None, errs2, p4)
            }
        },
    }
}

/// A call fold: the cursor stands on the opening parenthesis.
pub open spec fn ps_call_expr(ts: Seq<TokenV>, p: int, func: ExprV, errs: Seq<ParseErrorV>) -> (
    Option<ExprV>,
    Seq<ParseErrorV>,
    int,
)
    decreases ts.len() + 1 - p, 5int when 0 <= p <= ts.len()
{
    let (args, errs1, p1) = ps_expr_list(ts, p, TokenV::Rparen, errs);
    match args {
        None => (None, errs1, p1),
        Some(a) => (Some(ExprV::Call { func: Box::new(func), args: a }), errs1, p1),
    }
}

/// A prefix operator: `!`, `-` or `+`, then its operand at prefix strength.
pub open spec fn ps_prefix_expr(ts: Seq<TokenV>, p: int, errs: Seq<ParseErrorV>) -> (
    Option<ExprV>,
    Seq<ParseErrorV>,
    int,
)
    decreases ts.len() + 1 - p, 5int when 0 <= p <= ts.len()
{
    let op = match at_tok(ts, p) {
        TokenV::Bang => Some(Prefix::Not),
        TokenV::Minus => Some(Prefix::Minus),
        TokenV::Plus => Some(Prefix::Plus),
        _ => None,
    };
    match op {
        None => (None, errs, p),
        Some(o) => {
            let p1 = adv_strict(ts, p, bump_s(ts, p));
            let (r, errs1, p2) = ps_expr(ts, p1, Precedence::Prefix, errs);
            match r {
                None => (None, errs1, p2),
                Some(e) => (Some(ExprV::Prefix(o, Box::new(e))), errs1, p2),
            }
        },
    }
}

/// A parenthesised expression.
pub open spec fn ps_grouped_expr(ts: Seq<TokenV>, p: int, errs: Seq<ParseErrorV>) -> (
    Option<ExprV>,
    Seq<ParseErrorV>,
    int,
)
    decreases ts.len() + 1 - p, 5int when 0 <= p <= ts.len()
{
    let p1 = adv_strict(ts, p, bump_s(ts, p));
    let (r, errs1, p2) = ps_expr(ts, p1, Precedence::Lowest, errs);
    let p3 = adv(p, p2);
    let (ok, errs2, p4) = ps_expect(ts, p3, TokenV::Rparen, errs1);
    if !ok {
        (None, errs2, p4)
    } else {
        (r, errs2, p4)
    }
}

/// An array literal: expressions to the closing bracket.
pub open spec fn ps_array_expr(ts: Seq<TokenV>, p: int, errs: Seq<ParseErrorV>) -> (
    Option<ExprV>,
    Seq<ParseErrorV>,
    int,
)
    decreases ts.len() + 1 - p, 5int when 0 <= p <= ts.len()
{
    let (list, errs1, p1) = ps_expr_list(ts, p, TokenV::Rbracket, errs);
    match list {
        None => (None, errs1, p1),
        Some(l) => (Some(ExprV::Literal(LiteralV::Array(l))), errs1, p1),
    }
}

/// A comma-separated expression list up to `end`, which is consumed.
pub open spec fn ps_expr_list(ts: Seq<TokenV>, p: int, end: TokenV, errs: Seq<ParseErrorV>) -> (
    Option<Seq<ExprV>>,
    Seq<ParseErrorV>,
    int,
)
    decreases ts.len() + 1 - p, 4int when 0 <= p <= ts.len()
{
    if peek_tok(ts, p) == end {
        (Some(Seq::empty()), errs, bump_s(ts, p))
    } else {
        let p1 = adv_strict(ts, p, bump_s(ts, p));
        let (e0, errs1, p2) = ps_expr(ts, p1, Precedence::Lowest, errs);
        match e0 {
            None => (None, errs1, adv(p, p2)),
            Some(e) => ps_expr_list_rest(ts, adv_strict(ts, p, p2), end, seq![e], errs1),
        }
    }
}

pub open spec fn ps_expr_list_rest(
    ts: Seq<TokenV>,
    p: int,
    end: TokenV,
    acc: Seq<ExprV>,
    errs: Seq<ParseErrorV>,
) -> (Option<Seq<ExprV>>, Seq<ParseErrorV>, int)
    decreases ts.len() + 1 - p, 3int when 0 <= p <= ts.len()
{
    if peek_tok(ts, p) is Comma {
        let p1 = adv_strict(ts, p, bump_s(ts, bump_s(ts, p)));
        let (e, errs1, p2) = ps_expr(ts, p1, Precedence::Lowest, errs);
        match e {
            None => (None, errs1, adv(p, p2)),
            Some(ex) => ps_expr_list_rest(ts, adv_strict(ts, p, p2), end, acc.push(ex), errs1),
        }
    } else {
        let (ok, errs1, p1) = ps_expect(ts, p, end, errs);
        if ok {
            (Some(acc), errs1, p1)
        } else {
            (None, errs1, p1)
        }
    }
}

/// A hash literal: `expr : expr` pairs, comma-separated, to the closing
/// brace.
pub open spec fn ps_hash_expr(ts: Seq<TokenV>, p: int, errs: Seq<ParseErrorV>) -> (
    Option<ExprV>,
    Seq<ParseErrorV>,
    int,
)
    decreases ts.len() + 1 - p, 5int when 0 <= p <= ts.len()
{
    ps_hash_from(ts, p, Seq::empty(), errs)
}

#[verifier::opaque]
pub open spec fn ps_hash_from(
    ts: Seq<TokenV>,
    p: int,
    acc: Seq<(ExprV, ExprV)>,
    errs: Seq<ParseErrorV>,
) -> (Option<ExprV>, Seq<ParseErrorV>, int)
    decreases ts.len() + 1 - p, 4int when 0 <= p <= ts.len()
{
    if peek_tok(ts, p) is Rbrace {
        let (ok, errs1, p1) = ps_expect(ts, p, TokenV::Rbrace, errs);
        if ok {
            (Some(ExprV::Literal(LiteralV::Hash(acc))), errs1, p1)
        } else {
            (None, errs1, p1)
        }
    } else if p >= ts.len() {
        // past the end every token reads as Eof: the key parse fails at once
        (None, errs.push(err_no_prefix_spec(TokenV::Eof)), p)
    } else {
        let p1 = adv_strict(ts, p, bump_s(ts, p));
        let (k, errs1, p2) = ps_expr(ts, p1, Precedence::Lowest, errs);
        match k {
            None => (None, errs1, adv(p, p2)),
            Some(key) => {
                let p3 = adv(p, p2);
                let (ok, errs2, p4) = ps_expect(ts, p3, TokenV::Colon, errs1);
                if !ok {
                    (None, errs2, p4)
                } else {
                    let p5 = adv_strict(ts, p, bump_s(ts, adv(p, p4)));
                    let (v, errs3, p6) = ps_expr(ts, p5, Precedence::Lowest, errs2);
                    match v {
                        None => (None, errs3, adv(p, p6)),
                        Some(val) => {
                            let p7 = adv_strict(ts, p, p6);
                            if peek_tok(ts, p7) is Rbrace {
                                ps_hash_from(ts, p7, acc.push((key, val)), errs3)
                            } else {
                                let (ok2, errs4, p8) = ps_expect(ts, p7, TokenV::Comma, errs3);
                                if !ok2 {
                                    (None, errs4, p8)
                                } else {
                                    ps_hash_from(
                                        ts,
                                        adv_strict(ts, p, p8),
                                        acc.push((key, val)),
                                        errs4,
                                    )
                                }
                            }
                        },
                    }
                }
            },
        }
    }
}

/// `if (COND) { ... } [else { ... }]`.
#[verifier::opaque]
pub open spec fn ps_if_expr(ts: Seq<TokenV>, p: int, errs: Seq<ParseErrorV>) -> (
    Option<ExprV>,
    Seq<ParseErrorV>,
    int,
)
    decreases ts.len() + 1 - p, 5int when 0 <= p <= ts.len()
{
    let (ok, errs1, p1) = ps_expect(ts, p, TokenV::Lparen, errs);
    if !ok {
        (None, errs1, p1)
    } else {
        let p2 = adv_strict(ts, p, bump_s(ts, adv(p, p1)));
        let (c, errs2, p3) = ps_expr(ts, p2, Precedence::Lowest, errs1);
        match c {
            None => (None, errs2, adv(p, p3)),
            Some(cond) => {
                let p4 = adv(p, p3);
                let (ok2, errs3, p5) = ps_expect(ts, p4, TokenV::Rparen, errs2);
                if !ok2 {
                    (None, errs3, p5)
                } else {
                    let (ok3, errs4, p6) = ps_expect(ts, p5, TokenV::Lbrace, errs3);
                    if !ok3 {
                        (None, errs4, p6)
                    } else {
                        let p7 = adv_strict(ts, p, p6);
                        let (cons, errs5, p8) = ps_block(ts, p7, errs4);
                        let p9 = adv_strict(ts, p, p8);
                        if peek_tok(ts, p9) is Else {
                            let p10 = bump_s(ts, p9);
                            let (ok4, errs6, p11) = ps_expect(ts, p10, TokenV::Lbrace, errs5);
                            if !ok4 {
                                (None, errs6, p11)
                            } else {
                                let p12 = adv_strict(ts, p, p11);
                                let (alt, errs7, p13) = ps_block(ts, p12, errs6);
                                (
                                    Some(
                                        ExprV::If {
                                            cond: Box::new(cond),
                                            consequence: cons,
                                            alternative: Some(alt),
                                        },
                                    ),
                                    errs7,
                                    p13,
                                )
                            }
                        } else {
                            (
                                Some(
                                    ExprV::If {
                                        cond: Box::new(cond),
                                        consequence: cons,
                                        alternative: None,
                                    },
                                ),
                                errs5,
                                p9,
                            )
                        }
                    }
                }
            },
        }
    }
}

/// `fn (PARAMS) { ... }`.
pub open spec fn ps_func_expr(ts: Seq<TokenV>, p: int, errs: Seq<ParseErrorV>) -> (
    Option<ExprV>,
    Seq<ParseErrorV>,
    int,
)
    decreases ts.len() + 1 - p, 5int when 0 <= p <= ts.len()
{
    let (ok, errs1, p1) = ps_expect(ts, p, TokenV::Lparen, errs);
    if !ok {
        (None, errs1, p1)
    } else {
        let p2 = adv_strict(ts, p, adv(p, p1));
        let (params, errs2, p3) = ps_func_params(ts, p2, errs1);
        match params {
            None => (None, errs2, adv(p, p3)),
            Some(ps) => {
                let p4 = adv(p, p3);
                let (ok2, errs3, p5) = ps_expect(ts, p4, TokenV::Lbrace, errs2);
                if !ok2 {
                    (None, errs3, p5)
                } else {
                    let p6 = adv_strict(ts, p, p5);
                    let (body, errs4, p7) = ps_block(ts, p6, errs3);
                    (Some(ExprV::Func { params: ps, body }), errs4, p7)
                }
            },
        }
    }
}

/// The parameter list of a function literal: identifiers to the closing
/// parenthesis. The cursor stands on the opening parenthesis.
pub open spec fn ps_func_params(ts: Seq<TokenV>, p: int, errs: Seq<ParseErrorV>) -> (
    Option<Seq<Seq<char>>>,
    Seq<ParseErrorV>,
    int,
)
    decreases ts.len() + 1 - p, 4int when 0 <= p <= ts.len()
{
    if peek_tok(ts, p) is Rparen {
        (Some(Seq::empty()), errs, bump_s(ts, p))
    } else {
        let p1 = adv_strict(ts, p, bump_s(ts, p));
        match at_tok(ts, p1) {
            TokenV::Ident(name) => ps_func_params_rest(ts, p1, seq![name], errs),
            _ => (None, errs, p1),
        }
    }
}

pub open spec fn ps_func_params_rest(
    ts: Seq<TokenV>,
    p: int,
    acc: Seq<Seq<char>>,
    errs: Seq<ParseErrorV>,
) -> (Option<Seq<Seq<char>>>, Seq<ParseErrorV>, int)
    decreases ts.len() + 1 - p, 3int when 0 <= p <= ts.len()
{
    if peek_tok(ts, p) is Comma {
        let p1 = adv_strict(ts, p, bump_s(ts, bump_s(ts, p)));
        match at_tok(ts, p1) {
            TokenV::Ident(name) => ps_func_params_rest(ts, p1, acc.push(name), errs),
            _ => (None, errs, p1),
        }
    } else {
        let (ok, errs1, p1) = ps_expect(ts, p, TokenV::Rparen, errs);
        if ok {
            (Some(acc), errs1, p1)
        } else {
            (None, errs1, p1)
        }
    }
}

/// What parsing a whole token stream yields: the program and the errors, a
/// mathematical function of the tokens alone.
pub open spec fn ps_parse(ts: Seq<TokenV>) -> (Seq<StmtV>, Seq<ParseErrorV>) {
    let (prog, errs, p) = ps_parse_from(ts, 0, Seq::empty(), Seq::empty());
    (prog, errs)
}

/// The image of an optional expression.
pub open spec fn ov_expr(o: Option<Expr>) -> Option<ExprV> {
    match o {
        Some(e) => Some(expr_view(e)),
        None => None,
    }
}

/// The image of an optional statement.
pub open spec fn ov_stmt(o: Option<Stmt>) -> Option<StmtV> {
    match o {
        Some(s) => Some(stmt_view(s)),
        None => None,
    }
}

/// Whether two tokens carry the same category and payload.
fn token_eq(a: &Token, b: &Token) -> (r: bool)
    ensures
        r == (a@ == b@),
{
    match (a, b) {
        (Token::Illegal, Token::Illegal) => true,
        (Token::Blank, Token::Blank) => true,
        (Token::Eof, Token::Eof) => true,
        (Token::Ident(x), Token::Ident(y)) => *x == *y,
        (Token::Int(x), Token::Int(y)) => *x == *y,
        (Token::String(x), Token::String(y)) => *x == *y,
        (Token::Bool(x), Token::Bool(y)) => *x == *y,
        (Token::Assign, Token::Assign) => true,
        (Token::If, Token::If) => true,
        (Token::Else, Token::Else) => true,
        (Token::Plus, Token::Plus) => true,
        (Token::Minus, Token::Minus) => true,
        (Token::Bang, Token::Bang) => true,
        (Token::Asterisk, Token::Asterisk) => true,
        (Token::Slash, Token::Slash) => true,
        (Token::Equal, Token::Equal) => true,
        (Token::NotEqual, Token::NotEqual) => true,
        (Token::LessThan, Token::LessThan) => true,
        (Token::LessThanEqual, Token::LessThanEqual) => true,
        (Token::GreaterThan, Token::GreaterThan) => true,
        (Token::GreaterThanEqual, Token::GreaterThanEqual) => true,
        (Token::Comma, Token::Comma) => true,
        (Token::Colon, Token::Colon) => true,
        (Token::Semicolon, Token::Semicolon) => true,
        (Token::Lparen, Token::Lparen) => true,
        (Token::Rparen, Token::Rparen) => true,
        (Token::Lbrace, Token::Lbrace) => true,
        (Token::Rbrace, Token::Rbrace) => true,
        (Token::Lbracket, Token::Lbracket) => true,
        (Token::Rbracket, Token::Rbracket) => true,
        (Token::Func, Token::Func) => true,
        (Token::Let, Token::Let) => true,
        (Token::Return, Token::Return) => true,
        _ => false,
    }
}

/// The rendering of a token in error messages.
fn token_debug(t: &Token) -> (r: String)
    ensures
        r@ == token_debug_spec(t@),
{
    match t {
        Token::Illegal => String::from_str("Illegal"),
        Token::Blank => String::from_str("Blank"),
        Token::Eof => String::from_str("Eof"),
        Token::Ident(s) => {
            let mut r = String::from_str("Ident(");
            let e = escape_str(s.as_str());
            r.append(e.as_str());
            r.append(")");
            r
        },
        Token::Int(i) => {
            let mut r = String::from_str("Int(");
            let d = int_to_string(*i);
            r.append(d.as_str());
            r.append(")");
            r
        },
        Token::String(s) => {
            let mut r = String::from_str("String(");
            let e = escape_str(s.as_str());
            r.append(e.as_str());
            r.append(")");
            r
        },
        Token::Bool(b) => {
            if *b {
                String::from_str("Bool(true)")
            } else {
                String::from_str("Bool(false)")
            }
        },
        Token::Assign => String::from_str("Assign"),
        Token::If => String::from_str("If"),
        Token::Else => String::from_str("Else"),
        Token::Plus => String::from_str("Plus"),
        Token::Minus => String::from_str("Minus"),
        Token::Bang => String::from_str("Bang"),
        Token::Asterisk => String::from_str("Asterisk"),
        Token::Slash => String::from_str("Slash"),
        Token::Equal => String::from_str("Equal"),
        Token::NotEqual => String::from_str("NotEqual"),
        Token::LessThan => String::from_str("LessThan"),
        Token::LessThanEqual => String::from_str("LessThanEqual"),
        Token::GreaterThan => String::from_str("GreaterThan"),
        Token::GreaterThanEqual => String::from_str("GreaterThanEqual"),
        Token::Comma => String::from_str("Comma"),
        Token::Colon => String::from_str("Colon"),
        Token::Semicolon => String::from_str("Semicolon"),
        Token::Lparen => String::from_str("Lparen"),
        Token::Rparen => String::from_str("Rparen"),
        Token::Lbrace => String::from_str("Lbrace"),
        Token::Rbrace => String::from_str("Rbrace"),
        Token::Lbracket => String::from_str("Lbracket"),
        Token::Rbracket => String::from_str("Rbracket"),
        Token::Func => String::from_str("Func"),
        Token::Let => String::from_str("Let"),
        Token::Return => String::from_str("Return"),
    }
}

/// The parser over a fixed token stream, with the cursor and the errors
/// gathered so far.
pub struct Parser {
    tokens: Vec<Token>,
    pos: usize,
    errors: ParseErrors,
}

impl Parser {
    /// The cursor never leaves the stream (one past the last token stands
    /// for its end).
    pub closed spec fn wf(&self) -> bool {
        self.pos <= self.tokens.len()
    }

    /// The token stream, seen mathematically.
    pub closed spec fn toks(&self) -> Seq<TokenV> {
        Seq::new(self.tokens@.len(), |i: int| self.tokens@[i]@)
    }

    /// The cursor.
    pub closed spec fn pos_v(&self) -> int {
        self.pos as int
    }

    /// The errors gathered so far, seen mathematically.
    pub closed spec fn errs_v(&self) -> Seq<ParseErrorV> {
        Seq::new(self.errors@.len(), |i: int| self.errors@[i]@)
    }

    /// Drains the lexer and stands ready at the first token. The stream is
    /// exactly what the lexer's specification says the source holds, up to
    /// and including the one final `Eof`.
    pub fn new(lexer: Lexer) -> (parser: Parser)
        requires
            lexer.wf(),
        ensures
            parser.wf(),
            parser.pos_v() == 0,
            parser.errs_v() == Seq::<ParseErrorV>::empty(),
            parser.toks() == crate::lexer::tokens_from(lexer.input_view(), lexer.pos_view()),
    {
        let ghost input = lexer.input_view();
        let ghost p0 = lexer.pos_view();
        let mut lx = lexer;
        let mut tokens: Vec<Token> = Vec::new();
        proof {
            lx.lemma_wf_bounds();
            lemma_lexer_totality_use(input, p0);
        }
        loop
            invariant_except_break
                crate::lexer::tokens_from(input, p0) == Seq::new(
                    tokens@.len(),
                    |i: int| tokens@[i]@,
                ) + crate::lexer::tokens_from(input, lx.pos_view()),
                forall|k: int| 0 <= k < tokens@.len() ==> !(#[trigger] tokens@[k]@ is Eof),
            invariant
                lx.wf(),
                lx.input_view() == input,
                0 <= p0 <= input.len(),
                p0 <= lx.pos_view() <= input.len(),
            ensures
                Seq::new(tokens@.len(), |i: int| tokens@[i]@) == crate::lexer::tokens_from(
                    input,
                    p0,
                ),
            decreases input.len() + 1 - lx.pos_view(),
        {
            let ghost pos_before = lx.pos_view();
            let ghost old_views = Seq::new(tokens@.len(), |i: int| tokens@[i]@);
            let t = lx.next_token();
            let is_eof = token_eq(&t, &Token::Eof);
            tokens.push(t);
            proof {
                lx.lemma_wf_bounds();
                crate::lexer::lemma_next_token_bounds(input, pos_before);
                assert(Seq::new(tokens@.len(), |i: int| tokens@[i]@) =~= old_views.push(
                    tokens@[tokens@.len() - 1]@,
                ));
                if is_eof {
                    assert(crate::lexer::tokens_from(input, pos_before) =~= seq![TokenV::Eof]);
                    assert(Seq::new(tokens@.len(), |i: int| tokens@[i]@)
                        =~= crate::lexer::tokens_from(input, p0));
                } else {
                    assert(crate::lexer::tokens_from(input, pos_before) == seq![
                        tokens@[tokens@.len() - 1]@,
                    ] + crate::lexer::tokens_from(input, lx.pos_view()));
                    assert(Seq::new(tokens@.len(), |i: int| tokens@[i]@)
                        + crate::lexer::tokens_from(input, lx.pos_view())
                        =~= crate::lexer::tokens_from(input, p0));
                }
            }
            if is_eof {
                break ;
            }
        }
        let parser = Parser { tokens, pos: 0, errors: Vec::new() };
        proof {
            assert(parser.errs_v() =~= Seq::<ParseErrorV>::empty());
        }
        parser
    }

    /// The binding strength the climbing loop assigns to `tok`.
    fn token_to_precedence(tok: &Token) -> (r: Precedence)
        ensures
            r == prec_of(tok@),
    {
        match tok {
            Token::Equal | Token::NotEqual => Precedence::Equals,
            Token::LessThan | Token::LessThanEqual => Precedence::LessGreater,
            Token::GreaterThan | Token::GreaterThanEqual => Precedence::LessGreater,
            Token::Plus | Token::Minus => Precedence::Sum,
            Token::Slash | Token::Asterisk => Precedence::Product,
            Token::Lbracket => Precedence::Index,
            Token::Lparen => Precedence::Call,
            _ => Precedence::Lowest,
        }
    }

    /// A copy of the errors gathered so far.
    pub fn get_errors(&self) -> (errs: ParseErrors)
        ensures
            Seq::new(errs@.len(), |i: int| errs@[i]@) == self.errs_v(),
    {
        let mut errs: ParseErrors = Vec::new();
        let mut i: usize = 0;
        while i < self.errors.len()
            invariant
                i <= self.errors.len(),
                errs@.len() == i,
                forall|k: int| 0 <= k < i ==> (#[trigger] errs@[k])@ == self.errors@[k]@,
            decreases self.errors.len() - i,
        {
            errs.push(self.errors[i].dup());
            i = i + 1;
        }
        proof {
            assert(Seq::new(errs@.len(), |k: int| errs@[k]@) =~= self.errs_v());
        }
        errs
    }

    /// The token under the cursor.
    fn cur(&self) -> (t: Token)
        requires
            self.wf(),
        ensures
            t@ == at_tok(self.toks(), self.pos_v()),
    {
        if self.pos < self.tokens.len() {
            self.tokens[self.pos].dup()
        } else {
            Token::Eof
        }
    }

    /// The token after the cursor.
    fn peek(&self) -> (t: Token)
        requires
            self.wf(),
        ensures
            t@ == peek_tok(self.toks(), self.pos_v()),
    {
        if self.pos < self.tokens.len() && self.pos + 1 < self.tokens.len() {
            self.tokens[self.pos + 1].dup()
        } else {
            Token::Eof
        }
    }

    /// One step forward, stopping at the end of the stream.
    fn bump(&mut self)
        requires
            old(self).wf(),
        ensures
            final(self).wf(),
            final(self).toks() == old(self).toks(),
            final(self).errs_v() == old(self).errs_v(),
            final(self).pos_v() == bump_s(old(self).toks(), old(self).pos_v()),
    {
        if self.pos < self.tokens.len() {
            self.pos = self.pos + 1;
        }
    }

    /// Whether the cursor stands on `tok`.
    fn current_token_is(&self, tok: &Token) -> (r: bool)
        requires
            self.wf(),
        ensures
            r == (at_tok(self.toks(), self.pos_v()) == tok@),
    {
        let c = self.cur();
        token_eq(&c, tok)
    }

    /// Whether the token after the cursor is `tok`.
    fn next_token_is(&self, tok: &Token) -> (r: bool)
        requires
            self.wf(),
        ensures
            r == (peek_tok(self.toks(), self.pos_v()) == tok@),
    {
        let p = self.peek();
        token_eq(&p, tok)
    }

    /// The binding strength of the token under the cursor.
    fn current_token_precedence(&self) -> (r: Precedence)
        requires
            self.wf(),
        ensures
            r == prec_of(at_tok(self.toks(), self.pos_v())),
    {
        let c = self.cur();
        Self::token_to_precedence(&c)
    }

    /// The binding strength of the token after the cursor.
    fn next_token_precedence(&self) -> (r: Precedence)
        requires
            self.wf(),
        ensures
            r == prec_of(peek_tok(self.toks(), self.pos_v())),
    {
        let p = self.peek();
        Self::token_to_precedence(&p)
    }

    /// Records that the token after the cursor is not the `tok` the grammar
    /// demands.
    fn error_next_token(&mut self, tok: &Token)
        requires
            old(self).wf(),
        ensures
            final(self).wf(),
            final(self).toks() == old(self).toks(),
            final(self).pos_v() == old(self).pos_v(),
            final(self).errs_v() == old(self).errs_v().push(
                err_next_token_spec(tok@, peek_tok(old(self).toks(), old(self).pos_v())),
            ),
    {
        let got = self.peek();
        let mut msg = String::from_str("expected next token to be ");
        let w = token_debug(tok);
        msg.append(w.as_str());
        msg.append(", got ");
        let g = token_debug(&got);
        msg.append(g.as_str());
        msg.append(" instead");
        let ghost before = self.errors@;
        self.errors.push(ParseError::new(ParseErrorKind::UnexpectedToken, msg, got));
        proof {
            assert(self.errs_v() =~= Seq::new(before.len(), |i: int| before[i]@).push(
                self.errors@[before.len() as int]@,
            ));
        }
    }

    /// Records that no prefix rule matches the token under the cursor.
    fn error_no_prefix_parser(&mut self)
        requires
            old(self).wf(),
        ensures
            final(self).wf(),
            final(self).toks() == old(self).toks(),
            final(self).pos_v() == old(self).pos_v(),
            final(self).errs_v() == old(self).errs_v().push(
                err_no_prefix_spec(at_tok(old(self).toks(), old(self).pos_v())),
            ),
    {
        let got = self.cur();
        let mut msg = String::from_str("no prefix parse function for  \"");
        let g = token_debug(&got);
        msg.append(g.as_str());
        msg.append("\" found");
        let ghost before = self.errors@;
        self.errors.push(ParseError::new(ParseErrorKind::UnexpectedToken, msg, got));
        proof {
            assert(self.errs_v() =~= Seq::new(before.len(), |i: int| before[i]@).push(
                self.errors@[before.len() as int]@,
            ));
        }
    }

    /// Consumes the expected token, or records the mismatch and stays.
    fn expect_next_token(&mut self, tok: &Token) -> (r: bool)
        requires
            old(self).wf(),
        ensures
            final(self).wf(),
            final(self).toks() == old(self).toks(),
            (r, final(self).errs_v(), final(self).pos_v()) == ps_expect(
                old(self).toks(),
                old(self).pos_v(),
                tok@,
                old(self).errs_v(),
            ),
            final(self).pos_v() >= old(self).pos_v(),
    {
        if self.next_token_is(tok) {
            self.bump();
            true
        } else {
            self.error_next_token(tok);
            false
        }
    }
}

/// Re-stating the lexer's totality for the tokenizing loop.
proof fn lemma_lexer_totality_use(input: Seq<char>, pos: int)
    requires
        0 <= pos <= input.len(),
    ensures
        crate::lexer::tokens_from(input, pos).len() >= 1,
        crate::lexer::tokens_from(input, pos).last() == TokenV::Eof,
{
    crate::lexer::lemma_lexer_totality(input, pos);
}


impl Parser {
    /// The whole program: statements to the end of the stream. What comes
    /// back, and the errors gathered, are a function of the tokens alone.
    pub fn parse(&mut self) -> (program: Program)
        requires
            old(self).wf(),
        ensures
            final(self).wf(),
            final(self).toks() == old(self).toks(),
            (block_view(program), final(self).errs_v(), final(self).pos_v()) == ps_parse_from(
                old(self).toks(),
                old(self).pos_v(),
                Seq::<StmtV>::empty(),
                old(self).errs_v(),
            ),
            final(self).pos_v() >= old(self).pos_v(),
    {
        let ghost ts = old(self).toks();
        let mut program: Program = Vec::new();
        proof {
            assert(block_view_of_seq(program@) =~= Seq::<StmtV>::empty());
        }
        loop
            invariant
                self.wf(),
                self.toks() == ts,
                self.pos_v() >= old(self).pos_v(),
                ps_parse_from(ts, old(self).pos_v(), Seq::<StmtV>::empty(), old(self).errs_v())
                    == ps_parse_from(ts, self.pos_v(), block_view_of_seq(program@), self.errs_v()),
            ensures
                self.wf(),
                self.toks() == ts,
                self.pos_v() >= old(self).pos_v(),
                (block_view_of_seq(program@), self.errs_v(), self.pos_v()) == ps_parse_from(
                    ts,
                    old(self).pos_v(),
                    Seq::<StmtV>::empty(),
                    old(self).errs_v(),
                ),
            decreases ts.len() + 1 - self.pos_v(), 10int,
        {
            if self.current_token_is(&Token::Eof) {
                break ;
            }
            let ghost p_it = self.pos_v();
            let ghost prog_it = block_view_of_seq(program@);
            match self.parse_stmt() {
                Some(stmt) => {
                    let ghost before = program@;
                    proof {
                        lemma_block_view_push(before, stmt);
                    }
                    program.push(stmt);
                },
                None => {},
            }
            self.bump();
        }
        program
    }

    /// A brace-delimited block: the cursor stands on the opening brace.
    fn parse_block_stmt(&mut self) -> (block: BlockStmt)
        requires
            old(self).wf(),
        ensures
            final(self).wf(),
            final(self).toks() == old(self).toks(),
            (block_view(block), final(self).errs_v(), final(self).pos_v()) == ps_block(
                old(self).toks(),
                old(self).pos_v(),
                old(self).errs_v(),
            ),
            final(self).pos_v() >= old(self).pos_v(),
        decreases old(self).toks().len() + 1 - old(self).pos_v(), 11int,
    {
        self.bump();
        let block: BlockStmt = Vec::new();
        proof {
            assert(block_view_of_seq(block@) =~= Seq::<StmtV>::empty());
        }
        self.parse_block_rest(block)
    }

    /// The statements of a block after the opening brace, appended to what
    /// has been gathered already.
    fn parse_block_rest(&mut self, block: BlockStmt) -> (r: BlockStmt)
        requires
            old(self).wf(),
        ensures
            final(self).wf(),
            final(self).toks() == old(self).toks(),
            (block_view(r), final(self).errs_v(), final(self).pos_v()) == ps_block_from(
                old(self).toks(),
                old(self).pos_v(),
                block_view_of_seq(block@),
                old(self).errs_v(),
            ),
            final(self).pos_v() >= old(self).pos_v(),
        decreases old(self).toks().len() + 1 - old(self).pos_v(), 10int,
    {
        let mut block = block;
        if self.current_token_is(&Token::Rbrace) || self.current_token_is(&Token::Eof) {
            return block;
        }
        match self.parse_stmt() {
            Some(stmt) => {
                let ghost before = block@;
                proof {
                    lemma_block_view_push(before, stmt);
                }
                block.push(stmt);
            },
            None => {},
        }
        self.bump();
        self.parse_block_rest(block)
    }

    /// One statement, chosen by the token under the cursor.
    #[verifier::rlimit(100)]
    #[verifier::spinoff_prover]
    fn parse_stmt(&mut self) -> (r: Option<Stmt>)
        requires
            old(self).wf(),
        ensures
            final(self).wf(),
            final(self).toks() == old(self).toks(),
            (ov_stmt(r), final(self).errs_v(), final(self).pos_v()) == ps_stmt(
                old(self).toks(),
                old(self).pos_v(),
                old(self).errs_v(),
            ),
            final(self).pos_v() >= old(self).pos_v(),
        decreases old(self).toks().len() + 1 - old(self).pos_v(), 9int,
    {
        let t = self.cur();
        match t {
            Token::Let => self.parse_let_stmt(),
            Token::Return => self.parse_return_stmt(),
            Token::Blank => Some(Stmt::Blank),
            _ => self.parse_expr_stmt(),
        }
    }

    /// `let NAME = EXPR [;]`.
    #[verifier::rlimit(100)]
    #[verifier::spinoff_prover]
    fn parse_let_stmt(&mut self) -> (r: Option<Stmt>)
        requires
            old(self).wf(),
        ensures
            final(self).wf(),
            final(self).toks() == old(self).toks(),
            (ov_stmt(r), final(self).errs_v(), final(self).pos_v()) == ps_let_stmt(
                old(self).toks(),
                old(self).pos_v(),
                old(self).errs_v(),
            ),
            final(self).pos_v() >= old(self).pos_v(),
        decreases old(self).toks().len() + 1 - old(self).pos_v(), 8int,
    {
        let pk = self.peek();
        let name = match pk {
            Token::Ident(name) => name,
            _ => {
                return None;
            },
        };
        let ghost nv = name@;
        self.bump();
        if !self.expect_next_token(&Token::Assign) {
            return None;
        }
        self.bump();
        let expr = match self.parse_expr(Precedence::Lowest) {
            Some(expr) => expr,
            None => {
                return None;
            },
        };
        if self.next_token_is(&Token::Semicolon) {
            self.bump();
        }
        let st = Stmt::Let(Ident(name), expr);
        proof {
            assert(stmt_view(st) == StmtV::Let(nv, expr_view(st->Let_1)));
        }
        Some(st)
    }

    /// `return EXPR [;]`.
    #[verifier::rlimit(100)]
    #[verifier::spinoff_prover]
    fn parse_return_stmt(&mut self) -> (r: Option<Stmt>)
        requires
            old(self).wf(),
            at_tok(old(self).toks(), old(self).pos_v()) is Return,
        ensures
            final(self).wf(),
            final(self).toks() == old(self).toks(),
            (ov_stmt(r), final(self).errs_v(), final(self).pos_v()) == ps_return_stmt(
                old(self).toks(),
                old(self).pos_v(),
                old(self).errs_v(),
            ),
            final(self).pos_v() >= old(self).pos_v(),
        decreases old(self).toks().len() + 1 - old(self).pos_v(), 8int,
    {
        self.bump();
        let expr = match self.parse_expr(Precedence::Lowest) {
            Some(expr) => expr,
            None => {
                return None;
            },
        };
        if self.next_token_is(&Token::Semicolon) {
            self.bump();
        }
        let st = Stmt::Return(expr);
        proof {
            assert(stmt_view(st) == StmtV::Return(expr_view(st->Return_0)));
        }
        Some(st)
    }

    /// A bare expression as a statement.
    #[verifier::rlimit(100)]
    #[verifier::spinoff_prover]
    fn parse_expr_stmt(&mut self) -> (r: Option<Stmt>)
        requires
            old(self).wf(),
        ensures
            final(self).wf(),
            final(self).toks() == old(self).toks(),
            (ov_stmt(r), final(self).errs_v(), final(self).pos_v()) == ps_expr_stmt(
                old(self).toks(),
                old(self).pos_v(),
                old(self).errs_v(),
            ),
            final(self).pos_v() >= old(self).pos_v(),
        decreases old(self).toks().len() + 1 - old(self).pos_v(), 8int,
    {
        match self.parse_expr(Precedence::Lowest) {
            Some(expr) => {
                if self.next_token_is(&Token::Semicolon) {
                    self.bump();
                }
                let st = Stmt::Expr(expr);
                proof {
                    assert(stmt_view(st) == StmtV::Expr(expr_view(st->Expr_0)));
                }
                Some(st)
            },
            None => None,
        }
    }

    /// An expression at a given minimal binding strength.
    #[verifier::rlimit(100)]
    #[verifier::spinoff_prover]
    fn parse_expr(&mut self, precedence: Precedence) -> (r: Option<Expr>)
        requires
            old(self).wf(),
        ensures
            final(self).wf(),
            final(self).toks() == old(self).toks(),
            (ov_expr(r), final(self).errs_v(), final(self).pos_v()) == ps_expr(
                old(self).toks(),
                old(self).pos_v(),
                precedence,
                old(self).errs_v(),
            ),
            final(self).pos_v() >= old(self).pos_v(),
        decreases old(self).toks().len() + 1 - old(self).pos_v(), 7int,
    {
        proof {
            reveal(ps_expr);
        }
        let ghost ts = old(self).toks();
        let ghost p0 = old(self).pos_v();
        let t = self.cur();
        let left0 = match t {
            Token::Ident(_) => self.parse_ident_expr(),
            Token::Int(_) => self.parse_int_expr(),
            Token::String(_) => self.parse_string_expr(),
            Token::Bool(_) => self.parse_bool_expr(),
            Token::Lbracket => self.parse_array_expr(),
            Token::Lbrace => self.parse_hash_expr(),
            Token::Bang | Token::Minus | Token::Plus => self.parse_prefix_expr(),
            Token::Lparen => self.parse_grouped_expr(),
            Token::If => self.parse_if_expr(),
            Token::Func => self.parse_func_expr(),
            _ => {
                self.error_no_prefix_parser();
                return None;
            },
        };
        let left = match left0 {
            Some(l) => l,
            None => {
                return None;
            },
        };
        proof {
            assert(adv_in(ts, p0, self.pos_v()) == self.pos_v());
        }
        self.climb(left, precedence)
    }

    /// The climbing loop: folds infix, index and call forms into `left`
    /// while the token after the cursor binds tighter than `precedence`.
    fn climb(&mut self, left: Expr, precedence: Precedence) -> (r: Option<Expr>)
        requires
            old(self).wf(),
        ensures
            final(self).wf(),
            final(self).toks() == old(self).toks(),
            (ov_expr(r), final(self).errs_v(), final(self).pos_v()) == ps_climb(
                old(self).toks(),
                old(self).pos_v(),
                expr_view(left),
                precedence,
                old(self).errs_v(),
            ),
            final(self).pos_v() >= old(self).pos_v(),
        decreases old(self).toks().len() + 1 - old(self).pos_v(), 6int,
    {
        proof {
            reveal(ps_climb);
            reveal(ps_expr);
        }
        let ghost ts = old(self).toks();
        let ghost p0 = old(self).pos_v();
        let pk = self.peek();
        if token_eq(&pk, &Token::Semicolon) {
            return Some(left);
        }
        let next_prec = Self::token_to_precedence(&pk);
        if !precedence.is_below(&next_prec) {
            return Some(left);
        }
        let is_binary = matches!(
            pk,
            Token::Plus
            | Token::Minus
            | Token::Slash
            | Token::Asterisk
            | Token::Equal
            | Token::NotEqual
            | Token::LessThan
            | Token::LessThanEqual
            | Token::GreaterThan
            | Token::GreaterThanEqual
        );
        if is_binary {
            self.bump();
            match self.parse_infix_expr(left) {
                Some(l2) => self.climb(l2, precedence),
                None => None,
            }
        } else if token_eq(&pk, &Token::Lbracket) {
            self.bump();
            match self.parse_index_expr(left) {
                Some(l2) => self.climb(l2, precedence),
                None => None,
            }
        } else if token_eq(&pk, &Token::Lparen) {
            self.bump();
            match self.parse_call_expr(left) {
                Some(l2) => self.climb(l2, precedence),
                None => None,
            }
        } else {
            Some(left)
        }
    }

    /// The identifier under the cursor, if there is one.
    fn parse_ident(&mut self) -> (r: Option<Ident>)
        requires
            old(self).wf(),
        ensures
            *final(self) == *old(self),
            match at_tok(old(self).toks(), old(self).pos_v()) {
                TokenV::Ident(name) => r is Some && r->0@ == name,
                _ => r is None,
            },
    {
        let t = self.cur();
        match t {
            Token::Ident(name) => Some(Ident(name)),
            _ => None,
        }
    }

    /// An identifier as an expression.
    fn parse_ident_expr(&mut self) -> (r: Option<Expr>)
        requires
            old(self).wf(),
        ensures
            *final(self) == *old(self),
            match at_tok(old(self).toks(), old(self).pos_v()) {
                TokenV::Ident(name) => ov_expr(r) == Some(ExprV::Ident(name)),
                _ => r is None,
            },
    {
        match self.parse_ident() {
            Some(ident) => Some(Expr::Ident(ident)),
            None => None,
        }
    }

    /// An integer literal as an expression.
    fn parse_int_expr(&mut self) -> (r: Option<Expr>)
        requires
            old(self).wf(),
        ensures
            *final(self) == *old(self),
            match at_tok(old(self).toks(), old(self).pos_v()) {
                TokenV::Int(i) => ov_expr(r) == Some(ExprV::Literal(LiteralV::Int(i))),
                _ => r is None,
            },
    {
        let t = self.cur();
        match t {
            Token::Int(i) => {
                let r = Expr::Literal(Literal::Int(i));
                proof {
                    assert(t@ == TokenV::Int(i));
                    assert(literal_view(Literal::Int(i)) == LiteralV::Int(i));
                    assert(expr_view(r) == ExprV::Literal(LiteralV::Int(i)));
                }
                Some(r)
            },
            _ => None,
        }
    }

    /// A string literal as an expression.
    fn parse_string_expr(&mut self) -> (r: Option<Expr>)
        requires
            old(self).wf(),
        ensures
            *final(self) == *old(self),
            match at_tok(old(self).toks(), old(self).pos_v()) {
                TokenV::String(v) => ov_expr(r) == Some(ExprV::Literal(LiteralV::String(v))),
                _ => r is None,
            },
    {
        let t = self.cur();
        match t {
            Token::String(v) => {
                let ghost vv = v@;
                let r = Expr::Literal(Literal::String(v));
                proof {
                    assert(t@ == TokenV::String(vv));
                    assert(literal_view(Literal::String(v)) == LiteralV::String(vv));
                    assert(expr_view(r) == ExprV::Literal(LiteralV::String(vv)));
                }
                Some(r)
            },
            _ => None,
        }
    }

    /// A boolean literal as an expression.
    fn parse_bool_expr(&mut self) -> (r: Option<Expr>)
        requires
            old(self).wf(),
        ensures
            *final(self) == *old(self),
            match at_tok(old(self).toks(), old(self).pos_v()) {
                TokenV::Bool(b) => ov_expr(r) == Some(ExprV::Literal(LiteralV::Bool(b))),
                _ => r is None,
            },
    {
        let t = self.cur();
        match t {
            Token::Bool(b) => {
                let r = Expr::Literal(Literal::Bool(b));
                proof {
                    assert(t@ == TokenV::Bool(b));
                    assert(literal_view(Literal::Bool(b)) == LiteralV::Bool(b));
                    assert(expr_view(r) == ExprV::Literal(LiteralV::Bool(b)));
                }
                Some(r)
            },
            _ => None,
        }
    }
}


/// The image of a parameter list.
pub open spec fn idents_view(ps: Seq<Ident>) -> Seq<Seq<char>> {
    ps.map_values(|p: Ident| p@)
}

impl Parser {
    /// A prefix operator and its operand.
    fn parse_prefix_expr(&mut self) -> (r: Option<Expr>)
        requires
            old(self).wf(),
            at_tok(old(self).toks(), old(self).pos_v()) is Bang || at_tok(
                old(self).toks(),
                old(self).pos_v(),
            ) is Minus || at_tok(old(self).toks(), old(self).pos_v()) is Plus,
        ensures
            final(self).wf(),
            final(self).toks() == old(self).toks(),
            (ov_expr(r), final(self).errs_v(), final(self).pos_v()) == ps_prefix_expr(
                old(self).toks(),
                old(self).pos_v(),
                old(self).errs_v(),
            ),
            final(self).pos_v() >= old(self).pos_v(),
        decreases old(self).toks().len() + 1 - old(self).pos_v(), 6int,
    {
        proof {
            reveal(ps_expr);
        }
        let t = self.cur();
        let prefix = match t {
            Token::Bang => Prefix::Not,
            Token::Minus => Prefix::Minus,
            _ => Prefix::Plus,
        };
        self.bump();
        match self.parse_expr(Precedence::Prefix) {
            Some(expr) => Some(Expr::Prefix(prefix, Box::new(expr))),
            None => None,
        }
    }

    /// A binary operator fold; the cursor stands on the operator.
    fn parse_infix_expr(&mut self, left: Expr) -> (r: Option<Expr>)
        requires
            old(self).wf(),
            infix_of(at_tok(old(self).toks(), old(self).pos_v())) is Some,
        ensures
            final(self).wf(),
            final(self).toks() == old(self).toks(),
            (ov_expr(r), final(self).errs_v(), final(self).pos_v()) == ps_infix_expr(
                old(self).toks(),
                old(self).pos_v(),
                expr_view(left),
                old(self).errs_v(),
            ),
            final(self).pos_v() >= old(self).pos_v(),
        decreases old(self).toks().len() + 1 - old(self).pos_v(), 6int,
    {
        proof {
            reveal(ps_expr);
        }
        let t = self.cur();
        let infix = match t {
            Token::Plus => Infix::Plus,
            Token::Minus => Infix::Minus,
            Token::Slash => Infix::Divide,
            Token::Asterisk => Infix::Multiply,
            Token::Equal => Infix::Equal,
            Token::NotEqual => Infix::NotEqual,
            Token::LessThan => Infix::LessThan,
            Token::LessThanEqual => Infix::LessThanEqual,
            Token::GreaterThan => Infix::GreaterThan,
            _ => Infix::GreaterThanEqual,
        };
        let precedence = self.current_token_precedence();
        self.bump();
        match self.parse_expr(precedence) {
            Some(expr) => Some(Expr::Infix(infix, Box::new(left), Box::new(expr))),
            None => None,
        }
    }

    /// An index fold; the cursor stands on the opening bracket.
    fn parse_index_expr(&mut self, left: Expr) -> (r: Option<Expr>)
        requires
            old(self).wf(),
            at_tok(old(self).toks(), old(self).pos_v()) is Lbracket,
        ensures
            final(self).wf(),
            final(self).toks() == old(self).toks(),
            (ov_expr(r), final(self).errs_v(), final(self).pos_v()) == ps_index_expr(
                old(self).toks(),
                old(self).pos_v(),
                expr_view(left),
                old(self).errs_v(),
            ),
            final(self).pos_v() >= old(self).pos_v(),
        decreases old(self).toks().len() + 1 - old(self).pos_v(), 6int,
    {
        proof {
            reveal(ps_expr);
        }
        self.bump();
        let index = match self.parse_expr(Precedence::Lowest) {
            Some(expr) => expr,
            None => {
                return None;
            },
        };
        if !self.expect_next_token(&Token::Rbracket) {
            return None;
        }
        Some(Expr::Index(Box::new(left), Box::new(index)))
    }

    /// A call fold; the cursor stands on the opening parenthesis.
    fn parse_call_expr(&mut self, func: Expr) -> (r: Option<Expr>)
        requires
            old(self).wf(),
            at_tok(old(self).toks(), old(self).pos_v()) is Lparen,
        ensures
            final(self).wf(),
            final(self).toks() == old(self).toks(),
            (ov_expr(r), final(self).errs_v(), final(self).pos_v()) == ps_call_expr(
                old(self).toks(),
                old(self).pos_v(),
                expr_view(func),
                old(self).errs_v(),
            ),
            final(self).pos_v() >= old(self).pos_v(),
        decreases old(self).toks().len() + 1 - old(self).pos_v(), 6int,
    {
        proof {
            reveal(ps_expr);
        }
        let args = match self.parse_expr_list(&Token::Rparen) {
            Some(args) => args,
            None => {
                return None;
            },
        };
        Some(Expr::Call { func: Box::new(func), args })
    }

    /// A parenthesised expression.
    fn parse_grouped_expr(&mut self) -> (r: Option<Expr>)
        requires
            old(self).wf(),
            at_tok(old(self).toks(), old(self).pos_v()) is Lparen,
        ensures
            final(self).wf(),
            final(self).toks() == old(self).toks(),
            (ov_expr(r), final(self).errs_v(), final(self).pos_v()) == ps_grouped_expr(
                old(self).toks(),
                old(self).pos_v(),
                old(self).errs_v(),
            ),
            final(self).pos_v() >= old(self).pos_v(),
        decreases old(self).toks().len() + 1 - old(self).pos_v(), 6int,
    {
        proof {
            reveal(ps_expr);
        }
        self.bump();
        let expr = self.parse_expr(Precedence::Lowest);
        if !self.expect_next_token(&Token::Rparen) {
            None
        } else {
            expr
        }
    }

    /// An array literal.
    fn parse_array_expr(&mut self) -> (r: Option<Expr>)
        requires
            old(self).wf(),
            at_tok(old(self).toks(), old(self).pos_v()) is Lbracket,
        ensures
            final(self).wf(),
            final(self).toks() == old(self).toks(),
            (ov_expr(r), final(self).errs_v(), final(self).pos_v()) == ps_array_expr(
                old(self).toks(),
                old(self).pos_v(),
                old(self).errs_v(),
            ),
            final(self).pos_v() >= old(self).pos_v(),
        decreases old(self).toks().len() + 1 - old(self).pos_v(), 6int,
    {
        proof {
            reveal(ps_expr);
        }
        match self.parse_expr_list(&Token::Rbracket) {
            Some(list) => {
                let ghost lv = exprs_view_of_seq(list@);
                let r = Expr::Literal(Literal::Array(list));
                proof {
                    assert(literal_view(r->Literal_0) == LiteralV::Array(lv));
                    assert(expr_view(r) == ExprV::Literal(LiteralV::Array(lv)));
                }
                Some(r)
            },
            None => None,
        }
    }

    /// A comma-separated expression list up to `end`, which is consumed.
    fn parse_expr_list(&mut self, end: &Token) -> (r: Option<Vec<Expr>>)
        requires
            old(self).wf(),
            old(self).pos_v() < old(self).toks().len(),
        ensures
            final(self).wf(),
            final(self).toks() == old(self).toks(),
            ({
                let (lv, ev, pv) = ps_expr_list(
                    old(self).toks(),
                    old(self).pos_v(),
                    end@,
                    old(self).errs_v(),
                );
                &&& (match r {
                    Some(list) => lv == Some(exprs_view_of_seq(list@)),
                    None => lv is None,
                })
                &&& final(self).errs_v() == ev
                &&& final(self).pos_v() == pv
            }),
            final(self).pos_v() >= old(self).pos_v(),
        decreases old(self).toks().len() + 1 - old(self).pos_v(), 4int,
    {
        proof {
            reveal(ps_expr);
        }
        let mut list: Vec<Expr> = Vec::new();
        if self.next_token_is(end) {
            self.bump();
            proof {
                assert(exprs_view_of_seq(list@) =~= Seq::<ExprV>::empty());
            }
            return Some(list);
        }
        self.bump();
        match self.parse_expr(Precedence::Lowest) {
            Some(expr) => {
                let ghost before = list@;
                proof {
                    lemma_exprs_view_push(before, expr);
                    assert(exprs_view_of_seq(before) =~= Seq::<ExprV>::empty());
                }
                list.push(expr);
                proof {
                    assert(exprs_view_of_seq(list@) =~= seq![expr_view(expr)]);
                }
            },
            None => {
                return None;
            },
        }
        self.parse_expr_list_rest(end, list)
    }

    /// Further comma-separated expressions, then the terminator.
    fn parse_expr_list_rest(&mut self, end: &Token, list: Vec<Expr>) -> (r: Option<Vec<Expr>>)
        requires
            old(self).wf(),
        ensures
            final(self).wf(),
            final(self).toks() == old(self).toks(),
            ({
                let (lv, ev, pv) = ps_expr_list_rest(
                    old(self).toks(),
                    old(self).pos_v(),
                    end@,
                    exprs_view_of_seq(list@),
                    old(self).errs_v(),
                );
                &&& (match r {
                    Some(l) => lv == Some(exprs_view_of_seq(l@)),
                    None => lv is None,
                })
                &&& final(self).errs_v() == ev
                &&& final(self).pos_v() == pv
            }),
            final(self).pos_v() >= old(self).pos_v(),
        decreases old(self).toks().len() + 1 - old(self).pos_v(), 3int,
    {
        proof {
            reveal(ps_expr);
        }
        let mut list = list;
        if self.next_token_is(&Token::Comma) {
            self.bump();
            self.bump();
            match self.parse_expr(Precedence::Lowest) {
                Some(expr) => {
                    let ghost before = list@;
                    proof {
                        lemma_exprs_view_push(before, expr);
                    }
                    list.push(expr);
                },
                None => {
                    return None;
                },
            }
            self.parse_expr_list_rest(end, list)
        } else {
            if !self.expect_next_token(end) {
                return None;
            }
            Some(list)
        }
    }

    /// A hash literal: `expr : expr` pairs to the closing brace.
    fn parse_hash_expr(&mut self) -> (r: Option<Expr>)
        requires
            old(self).wf(),
            at_tok(old(self).toks(), old(self).pos_v()) is Lbrace,
        ensures
            final(self).wf(),
            final(self).toks() == old(self).toks(),
            (ov_expr(r), final(self).errs_v(), final(self).pos_v()) == ps_hash_expr(
                old(self).toks(),
                old(self).pos_v(),
                old(self).errs_v(),
            ),
            final(self).pos_v() >= old(self).pos_v(),
        decreases old(self).toks().len() + 1 - old(self).pos_v(), 6int,
    {
        proof {
            reveal(ps_hash_from);
        }
        let pairs: Vec<(Expr, Expr)> = Vec::new();
        proof {
            assert(pairs_view_of_seq(pairs@) =~= Seq::<(ExprV, ExprV)>::empty());
        }
        self.parse_hash_rest(pairs)
    }

    /// Further `expr : expr` pairs of a hash literal, then the closing
    /// brace.
    fn parse_hash_rest(&mut self, pairs: Vec<(Expr, Expr)>) -> (r: Option<Expr>)
        requires
            old(self).wf(),
        ensures
            final(self).wf(),
            final(self).toks() == old(self).toks(),
            (ov_expr(r), final(self).errs_v(), final(self).pos_v()) == ps_hash_from(
                old(self).toks(),
                old(self).pos_v(),
                pairs_view_of_seq(pairs@),
                old(self).errs_v(),
            ),
            final(self).pos_v() >= old(self).pos_v(),
        decreases old(self).toks().len() + 1 - old(self).pos_v(), 4int,
    {
        proof {
            reveal(ps_hash_from);
            reveal(ps_expr);
        }
        let mut pairs = pairs;
        if self.next_token_is(&Token::Rbrace) {
            if !self.expect_next_token(&Token::Rbrace) {
                return None;
            }
            let ghost pv = pairs_view_of_seq(pairs@);
            let r = Expr::Literal(Literal::Hash(pairs));
            proof {
                assert(literal_view(r->Literal_0) == LiteralV::Hash(pv));
                assert(expr_view(r) == ExprV::Literal(LiteralV::Hash(pv)));
            }
            return Some(r);
        }
        if self.pos >= self.tokens.len() {
            // every token past the end reads as Eof: the key parse fails at
            // once, exactly as bumping in place and asking for an expression
            self.error_no_prefix_parser();
            return None;
        }
        self.bump();
        let key = match self.parse_expr(Precedence::Lowest) {
            Some(expr) => expr,
            None => {
                return None;
            },
        };
        if !self.expect_next_token(&Token::Colon) {
            return None;
        }
        self.bump();
        let value = match self.parse_expr(Precedence::Lowest) {
            Some(expr) => expr,
            None => {
                return None;
            },
        };
        let ghost before = pairs@;
        proof {
            lemma_pairs_view_push(before, (key, value));
        }
        pairs.push((key, value));
        if !self.next_token_is(&Token::Rbrace) {
            if !self.expect_next_token(&Token::Comma) {
                return None;
            }
        }
        self.parse_hash_rest(pairs)
    }

    /// `if (COND) { ... } [else { ... }]`.
    fn parse_if_expr(&mut self) -> (r: Option<Expr>)
        requires
            old(self).wf(),
            at_tok(old(self).toks(), old(self).pos_v()) is If,
        ensures
            final(self).wf(),
            final(self).toks() == old(self).toks(),
            (ov_expr(r), final(self).errs_v(), final(self).pos_v()) == ps_if_expr(
                old(self).toks(),
                old(self).pos_v(),
                old(self).errs_v(),
            ),
            final(self).pos_v() >= old(self).pos_v(),
        decreases old(self).toks().len() + 1 - old(self).pos_v(), 6int,
    {
        proof {
            reveal(ps_if_expr);
            reveal(ps_expr);
        }
        if !self.expect_next_token(&Token::Lparen) {
            return None;
        }
        self.bump();
        let cond = match self.parse_expr(Precedence::Lowest) {
            Some(expr) => expr,
            None => {
                return None;
            },
        };
        if !self.expect_next_token(&Token::Rparen) {
            return None;
        }
        if !self.expect_next_token(&Token::Lbrace) {
            return None;
        }
        let consequence = self.parse_block_stmt();
        if self.next_token_is(&Token::Else) {
            self.bump();
            if !self.expect_next_token(&Token::Lbrace) {
                return None;
            }
            let alternative = self.parse_block_stmt();
            Some(
                Expr::If {
                    cond: Box::new(cond),
                    consequence,
                    alternative: Some(alternative),
                },
            )
        } else {
            Some(Expr::If { cond: Box::new(cond), consequence, alternative: None })
        }
    }

    /// `fn (PARAMS) { ... }`.
    fn parse_func_expr(&mut self) -> (r: Option<Expr>)
        requires
            old(self).wf(),
            at_tok(old(self).toks(), old(self).pos_v()) is Func,
        ensures
            final(self).wf(),
            final(self).toks() == old(self).toks(),
            (ov_expr(r), final(self).errs_v(), final(self).pos_v()) == ps_func_expr(
                old(self).toks(),
                old(self).pos_v(),
                old(self).errs_v(),
            ),
            final(self).pos_v() >= old(self).pos_v(),
        decreases old(self).toks().len() + 1 - old(self).pos_v(), 6int,
    {
        proof {
            reveal(ps_expr);
        }
        if !self.expect_next_token(&Token::Lparen) {
            return None;
        }
        let params = match self.parse_func_params() {
            Some(params) => params,
            None => {
                return None;
            },
        };
        if !self.expect_next_token(&Token::Lbrace) {
            return None;
        }
        let body = self.parse_block_stmt();
        let r = Expr::Func { params, body };
        proof {
            assert(params@.map_values(|p: Ident| p@) =~= idents_view(params@));
        }
        Some(r)
    }

    /// The parameter list of a function literal.
    fn parse_func_params(&mut self) -> (r: Option<Vec<Ident>>)
        requires
            old(self).wf(),
            at_tok(old(self).toks(), old(self).pos_v()) is Lparen,
        ensures
            final(self).wf(),
            final(self).toks() == old(self).toks(),
            ({
                let (pv, ev, pp) = ps_func_params(
                    old(self).toks(),
                    old(self).pos_v(),
                    old(self).errs_v(),
                );
                &&& (match r {
                    Some(params) => pv == Some(idents_view(params@)),
                    None => pv is None,
                })
                &&& final(self).errs_v() == ev
                &&& final(self).pos_v() == pp
            }),
            final(self).pos_v() >= old(self).pos_v(),
    {
        let mut params: Vec<Ident> = Vec::new();
        if self.next_token_is(&Token::Rparen) {
            self.bump();
            proof {
                assert(idents_view(params@) =~= Seq::<Seq<char>>::empty());
            }
            return Some(params);
        }
        self.bump();
        match self.parse_ident() {
            Some(ident) => {
                params.push(ident);
                proof {
                    assert(idents_view(params@) =~= seq![params@[0]@]);
                }
            },
            None => {
                return None;
            },
        }
        self.parse_func_params_rest(params)
    }

    /// Further comma-separated parameters, then the closing parenthesis.
    fn parse_func_params_rest(&mut self, params: Vec<Ident>) -> (r: Option<Vec<Ident>>)
        requires
            old(self).wf(),
        ensures
            final(self).wf(),
            final(self).toks() == old(self).toks(),
            ({
                let (pv, ev, pp) = ps_func_params_rest(
                    old(self).toks(),
                    old(self).pos_v(),
                    idents_view(params@),
                    old(self).errs_v(),
                );
                &&& (match r {
                    Some(l) => pv == Some(idents_view(l@)),
                    None => pv is None,
                })
                &&& final(self).errs_v() == ev
                &&& final(self).pos_v() == pp
            }),
            final(self).pos_v() >= old(self).pos_v(),
        decreases old(self).toks().len() + 1 - old(self).pos_v(), 2int,
    {
        let mut params = params;
        if self.next_token_is(&Token::Comma) {
            self.bump();
            self.bump();
            match self.parse_ident() {
                Some(ident) => {
                    let ghost before = params@;
                    params.push(ident);
                    proof {
                        assert(idents_view(params@) =~= idents_view(before).push(
                            params@[params@.len() - 1]@,
                        ));
                    }
                },
                None => {
                    return None;
                },
            }
            self.parse_func_params_rest(params)
        } else {
            if !self.expect_next_token(&Token::Rparen) {
                return None;
            }
            Some(params)
        }
    }
}



/// Parse determinism: the program and the error list a parse yields are a
/// mathematical function of the token stream alone, so any two runs over
/// the same stream agree on both.
pub proof fn lemma_parse_deterministic(
    ts: Seq<TokenV>,
    r1: (Seq<StmtV>, Seq<ParseErrorV>),
    r2: (Seq<StmtV>, Seq<ParseErrorV>),
)
    requires
        r1 == ps_parse(ts),
        r2 == ps_parse(ts),
    ensures
        r1 == r2,
{
}

/// Precedence: for any integers `a`, `b`, `c`, the tokens of `a + b * c`
/// parse to `a + (b * c)`, with no errors.
pub proof fn lemma_precedence_product_binds_tighter(a: i64, b: i64, c: i64)
    ensures
        ({
            let ts = seq![
                TokenV::Int(a),
                TokenV::Plus,
                TokenV::Int(b),
                TokenV::Asterisk,
                TokenV::Int(c),
                TokenV::Eof,
            ];
            ps_parse(ts) == (
                seq![
                    StmtV::Expr(
                        ExprV::Infix(
                            Infix::Plus,
                            Box::new(ExprV::Literal(LiteralV::Int(a))),
                            Box::new(
                                ExprV::Infix(
                                    Infix::Multiply,
                                    Box::new(ExprV::Literal(LiteralV::Int(b))),
                                    Box::new(ExprV::Literal(LiteralV::Int(c))),
                                ),
                            ),
                        ),
                    ),
                ],
                Seq::<ParseErrorV>::empty(),
            )
        }),
{
    reveal(ps_expr);
    reveal(ps_climb);
    let ts = seq![
        TokenV::Int(a),
        TokenV::Plus,
        TokenV::Int(b),
        TokenV::Asterisk,
        TokenV::Int(c),
        TokenV::Eof,
    ];
    let errs0 = Seq::<ParseErrorV>::empty();
    let prod = ExprV::Infix(
        Infix::Multiply,
        Box::new(ExprV::Literal(LiteralV::Int(b))),
        Box::new(ExprV::Literal(LiteralV::Int(c))),
    );
    let whole = ExprV::Infix(
        Infix::Plus,
        Box::new(ExprV::Literal(LiteralV::Int(a))),
        Box::new(prod),
    );
    assert(ps_expr(ts, 4, Precedence::Product, errs0) == (
        Some(ExprV::Literal(LiteralV::Int(c))),
        errs0,
        4int,
    ));
    assert(ps_infix_expr(ts, 3, ExprV::Literal(LiteralV::Int(b)), errs0) == (
        Some(prod),
        errs0,
        4int,
    ));
    assert(ps_climb(ts, 4, prod, Precedence::Sum, errs0) == (Some(prod), errs0, 4int));
    assert(ps_climb(ts, 2, ExprV::Literal(LiteralV::Int(b)), Precedence::Sum, errs0) == (
        Some(prod),
        errs0,
        4int,
    ));
    assert(ps_expr(ts, 2, Precedence::Sum, errs0) == (Some(prod), errs0, 4int));
    assert(ps_infix_expr(ts, 1, ExprV::Literal(LiteralV::Int(a)), errs0) == (
        Some(whole),
        errs0,
        4int,
    ));
    assert(ps_climb(ts, 4, whole, Precedence::Lowest, errs0) == (Some(whole), errs0, 4int));
    assert(ps_climb(ts, 0, ExprV::Literal(LiteralV::Int(a)), Precedence::Lowest, errs0) == (
        Some(whole),
        errs0,
        4int,
    ));
    assert(ps_expr(ts, 0, Precedence::Lowest, errs0) == (Some(whole), errs0, 4int));
    assert(ps_expr_stmt(ts, 0, errs0) == (Some(StmtV::Expr(whole)), errs0, 4int));
    assert(ps_stmt(ts, 0, errs0) == (Some(StmtV::Expr(whole)), errs0, 4int));
    assert(ps_parse_from(ts, 5, seq![StmtV::Expr(whole)], errs0) == (
        seq![StmtV::Expr(whole)],
        errs0,
        5int,
    ));
    assert(ps_parse_from(ts, 0, Seq::<StmtV>::empty(), errs0) == (
        seq![StmtV::Expr(whole)],
        errs0,
        5int,
    ));
}

/// Precedence: for any integers `a`, `b`, `c`, the tokens of `(a + b) * c`
/// parse to `(a + b) * c`, with no errors: the grouping defeats the
/// operator order.
pub proof fn lemma_precedence_grouping_wins(a: i64, b: i64, c: i64)
    ensures
        ({
            let ts = seq![
                TokenV::Lparen,
                TokenV::Int(a),
                TokenV::Plus,
                TokenV::Int(b),
                TokenV::Rparen,
                TokenV::Asterisk,
                TokenV::Int(c),
                TokenV::Eof,
            ];
            ps_parse(ts) == (
                seq![
                    StmtV::Expr(
                        ExprV::Infix(
                            Infix::Multiply,
                            Box::new(
                                ExprV::Infix(
                                    Infix::Plus,
                                    Box::new(ExprV::Literal(LiteralV::Int(a))),
                                    Box::new(ExprV::Literal(LiteralV::Int(b))),
                                ),
                            ),
                            Box::new(ExprV::Literal(LiteralV::Int(c))),
                        ),
                    ),
                ],
                Seq::<ParseErrorV>::empty(),
            )
        }),
{
    reveal(ps_expr);
    reveal(ps_climb);
    let ts = seq![
        TokenV::Lparen,
        TokenV::Int(a),
        TokenV::Plus,
        TokenV::Int(b),
        TokenV::Rparen,
        TokenV::Asterisk,
        TokenV::Int(c),
        TokenV::Eof,
    ];
    let errs0 = Seq::<ParseErrorV>::empty();
    let sum = ExprV::Infix(
        Infix::Plus,
        Box::new(ExprV::Literal(LiteralV::Int(a))),
        Box::new(ExprV::Literal(LiteralV::Int(b))),
    );
    let whole = ExprV::Infix(
        Infix::Multiply,
        Box::new(sum),
        Box::new(ExprV::Literal(LiteralV::Int(c))),
    );
    assert(ps_expr(ts, 3, Precedence::Sum, errs0) == (
        Some(ExprV::Literal(LiteralV::Int(b))),
        errs0,
        3int,
    ));
    assert(ps_infix_expr(ts, 2, ExprV::Literal(LiteralV::Int(a)), errs0) == (
        Some(sum),
        errs0,
        3int,
    ));
    assert(ps_climb(ts, 3, sum, Precedence::Lowest, errs0) == (Some(sum), errs0, 3int));
    assert(ps_climb(ts, 1, ExprV::Literal(LiteralV::Int(a)), Precedence::Lowest, errs0) == (
        Some(sum),
        errs0,
        3int,
    ));
    assert(ps_expr(ts, 1, Precedence::Lowest, errs0) == (Some(sum), errs0, 3int));
    assert(ps_grouped_expr(ts, 0, errs0) == (Some(sum), errs0, 4int));
    assert(ps_expr(ts, 6, Precedence::Product, errs0) == (
        Some(ExprV::Literal(LiteralV::Int(c))),
        errs0,
        6int,
    ));
    assert(ps_infix_expr(ts, 5, sum, errs0) == (Some(whole), errs0, 6int));
    assert(ps_climb(ts, 6, whole, Precedence::Lowest, errs0) == (Some(whole), errs0, 6int));
    assert(ps_climb(ts, 4, sum, Precedence::Lowest, errs0) == (Some(whole), errs0, 6int));
    assert(ps_expr(ts, 0, Precedence::Lowest, errs0) == (Some(whole), errs0, 6int));
    assert(ps_expr_stmt(ts, 0, errs0) == (Some(StmtV::Expr(whole)), errs0, 6int));
    assert(ps_stmt(ts, 0, errs0) == (Some(StmtV::Expr(whole)), errs0, 6int));
    assert(ps_parse_from(ts, 7, seq![StmtV::Expr(whole)], errs0) == (
        seq![StmtV::Expr(whole)],
        errs0,
        7int,
    ));
    assert(ps_parse_from(ts, 0, Seq::<StmtV>::empty(), errs0) == (
        seq![StmtV::Expr(whole)],
        errs0,
        7int,
    ));
}


} // verus!
