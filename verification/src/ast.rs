//! The abstract syntax tree the parser produces, and its mathematical image.

use vstd::prelude::*;

verus! {

/// An identifier, NFC-normalized by the lexer.
#[derive(Debug, PartialEq)]
pub struct Ident(pub String);

/// A prefix operator.
#[derive(Debug, PartialEq, Clone, Copy)]
pub enum Prefix {
    Plus,
    Minus,
    Not,
}

/// A binary operator.
#[derive(Debug, PartialEq, Clone, Copy)]
pub enum Infix {
    Plus,
    Minus,
    Divide,
    Multiply,
    Equal,
    NotEqual,
    GreaterThanEqual,
    GreaterThan,
    LessThanEqual,
    LessThan,
}

/// An expression.
#[derive(Debug, PartialEq)]
pub enum Expr {
    Ident(Ident),
    Literal(Literal),
    Prefix(Prefix, Box<Expr>),
    Infix(Infix, Box<Expr>, Box<Expr>),
    Index(Box<Expr>, Box<Expr>),
    If { cond: Box<Expr>, consequence: BlockStmt, alternative: Option<BlockStmt> },
    Func { params: Vec<Ident>, body: BlockStmt },
    Call { func: Box<Expr>, args: Vec<Expr> },
}

/// A literal expression.
#[derive(Debug, PartialEq)]
pub enum Literal {
    Int(i64),
    String(String),
    Bool(bool),
    Array(Vec<Expr>),
    Hash(Vec<(Expr, Expr)>),
}

/// A statement. `Blank` stands for a blank line kept for the formatter; the
/// evaluator skips it.
#[derive(Debug, PartialEq)]
pub enum Stmt {
    Blank,
    Let(Ident, Expr),
    Return(Expr),
    Expr(Expr),
}

pub type BlockStmt = Vec<Stmt>;

pub type Program = BlockStmt;

/// Operator binding strength, lowest first.
#[derive(Debug, PartialEq, Eq, Clone, Copy)]
pub enum Precedence {
    Lowest,
    Equals,
    LessGreater,
    Sum,
    Product,
    Prefix,
    Call,
    Index,
}

impl Precedence {
    /// The rank that orders the precedence levels.
    pub open spec fn rank(self) -> int {
        match self {
            Precedence::Lowest => 0,
            Precedence::Equals => 1,
            Precedence::LessGreater => 2,
            Precedence::Sum => 3,
            Precedence::Product => 4,
            Precedence::Prefix => 5,
            Precedence::Call => 6,
            Precedence::Index => 7,
        }
    }

    /// Strictly weaker binding than `other`.
    pub fn is_below(&self, other: &Precedence) -> (r: bool)
        ensures
            r == (self.rank() < other.rank()),
    {
        self.level() < other.level()
    }

    fn level(&self) -> (r: u8)
        ensures
            r as int == self.rank(),
    {
        match self {
            Precedence::Lowest => 0,
            Precedence::Equals => 1,
            Precedence::LessGreater => 2,
            Precedence::Sum => 3,
            Precedence::Product => 4,
            Precedence::Prefix => 5,
            Precedence::Call => 6,
            Precedence::Index => 7,
        }
    }
}

/// The mathematical image of an expression.
pub enum ExprV {
    Ident(Seq<char>),
    Literal(LiteralV),
    Prefix(Prefix, Box<ExprV>),
    Infix(Infix, Box<ExprV>, Box<ExprV>),
    Index(Box<ExprV>, Box<ExprV>),
    If { cond: Box<ExprV>, consequence: Seq<StmtV>, alternative: Option<Seq<StmtV>> },
    Func { params: Seq<Seq<char>>, body: Seq<StmtV> },
    Call { func: Box<ExprV>, args: Seq<ExprV> },
}

/// The mathematical image of a literal.
pub enum LiteralV {
    Int(i64),
    String(Seq<char>),
    Bool(bool),
    Array(Seq<ExprV>),
    Hash(Seq<(ExprV, ExprV)>),
}

/// The mathematical image of a statement.
pub enum StmtV {
    Blank,
    Let(Seq<char>, ExprV),
    Return(ExprV),
    Expr(ExprV),
}

impl View for Ident {
    type V = Seq<char>;

    open spec fn view(&self) -> Seq<char> {
        self.0@
    }
}

impl View for Expr {
    type V = ExprV;

    open spec fn view(&self) -> ExprV {
        expr_view(*self)
    }
}

impl View for Stmt {
    type V = StmtV;

    open spec fn view(&self) -> StmtV {
        stmt_view(*self)
    }
}

impl View for Literal {
    type V = LiteralV;

    open spec fn view(&self) -> LiteralV {
        literal_view(*self)
    }
}

pub open spec fn expr_view(e: Expr) -> ExprV
    decreases e,
{
    match e {
        Expr::Ident(name) => ExprV::Ident(name.0@),
        Expr::Literal(l) => ExprV::Literal(literal_view(l)),
        Expr::Prefix(op, r) => ExprV::Prefix(op, Box::new(expr_view(*r))),
        Expr::Infix(op, l, r) => ExprV::Infix(op, Box::new(expr_view(*l)), Box::new(expr_view(*r))),
        Expr::Index(l, ix) => ExprV::Index(Box::new(expr_view(*l)), Box::new(expr_view(*ix))),
        Expr::If { cond, consequence, alternative } => ExprV::If {
            cond: Box::new(expr_view(*cond)),
            consequence: block_view_of_seq(consequence@),
            alternative: match alternative {
                Some(alt) => Some(block_view_of_seq(alt@)),
                None => None,
            },
        },
        Expr::Func { params, body } => ExprV::Func {
            params: params@.map_values(|p: Ident| p@),
            body: block_view_of_seq(body@),
        },
        Expr::Call { func, args } => ExprV::Call {
            func: Box::new(expr_view(*func)),
            args: exprs_view_of_seq(args@),
        },
    }
}

pub open spec fn literal_view(l: Literal) -> LiteralV
    decreases l,
{
    match l {
        Literal::Int(i) => LiteralV::Int(i),
        Literal::String(s) => LiteralV::String(s@),
        Literal::Bool(b) => LiteralV::Bool(b),
        Literal::Array(es) => LiteralV::Array(exprs_view_of_seq(es@)),
        Literal::Hash(ps) => LiteralV::Hash(pairs_view_of_seq(ps@)),
    }
}

pub open spec fn stmt_view(s: Stmt) -> StmtV
    decreases s,
{
    match s {
        Stmt::Blank => StmtV::Blank,
        Stmt::Let(name, e) => StmtV::Let(name.0@, expr_view(e)),
        Stmt::Return(e) => StmtV::Return(expr_view(e)),
        Stmt::Expr(e) => StmtV::Expr(expr_view(e)),
    }
}

pub open spec fn exprs_view_of_seq(es: Seq<Expr>) -> Seq<ExprV>
    decreases es,
{
    if es.len() == 0 {
        Seq::empty()
    } else {
        seq![expr_view(es[0])] + exprs_view_of_seq(es.subrange(1, es.len() as int))
    }
}

pub open spec fn pairs_view_of_seq(ps: Seq<(Expr, Expr)>) -> Seq<(ExprV, ExprV)>
    decreases ps,
{
    if ps.len() == 0 {
        Seq::empty()
    } else {
        seq![(expr_view(ps[0].0), expr_view(ps[0].1))] + pairs_view_of_seq(
            ps.subrange(1, ps.len() as int),
        )
    }
}

pub open spec fn block_view_of_seq(ss: Seq<Stmt>) -> Seq<StmtV>
    decreases ss,
{
    if ss.len() == 0 {
        Seq::empty()
    } else {
        seq![stmt_view(ss[0])] + block_view_of_seq(ss.subrange(1, ss.len() as int))
    }
}

/// The image of a whole block, statement by statement.
pub open spec fn block_view(b: BlockStmt) -> Seq<StmtV> {
    block_view_of_seq(b@)
}

pub broadcast proof fn lemma_exprs_view_len(es: Seq<Expr>)
    ensures
        (#[trigger] exprs_view_of_seq(es)).len() == es.len(),
    decreases es,
{
    if es.len() > 0 {
        lemma_exprs_view_len(es.subrange(1, es.len() as int));
    }
}

pub broadcast proof fn lemma_exprs_view_index(es: Seq<Expr>, i: int)
    requires
        0 <= i < es.len(),
    ensures
        exprs_view_of_seq(es).len() == es.len(),
        #[trigger] exprs_view_of_seq(es)[i] == expr_view(es[i]),
    decreases es,
{
    lemma_exprs_view_len(es);
    if i > 0 {
        lemma_exprs_view_index(es.subrange(1, es.len() as int), i - 1);
    }
}

pub broadcast proof fn lemma_pairs_view_len(ps: Seq<(Expr, Expr)>)
    ensures
        (#[trigger] pairs_view_of_seq(ps)).len() == ps.len(),
    decreases ps,
{
    if ps.len() > 0 {
        lemma_pairs_view_len(ps.subrange(1, ps.len() as int));
    }
}

pub broadcast proof fn lemma_pairs_view_index(ps: Seq<(Expr, Expr)>, i: int)
    requires
        0 <= i < ps.len(),
    ensures
        pairs_view_of_seq(ps).len() == ps.len(),
        #[trigger] pairs_view_of_seq(ps)[i] == (expr_view(ps[i].0), expr_view(ps[i].1)),
    decreases ps,
{
    lemma_pairs_view_len(ps);
    if i > 0 {
        lemma_pairs_view_index(ps.subrange(1, ps.len() as int), i - 1);
    }
}

pub proof fn lemma_exprs_view_push(es: Seq<Expr>, e: Expr)
    ensures
        exprs_view_of_seq(es.push(e)) == exprs_view_of_seq(es).push(expr_view(e)),
{
    let whole = es.push(e);
    lemma_exprs_view_len(es);
    lemma_exprs_view_len(whole);
    assert forall|i: int| 0 <= i < whole.len() implies exprs_view_of_seq(whole)[i]
        == exprs_view_of_seq(es).push(expr_view(e))[i] by {
        lemma_exprs_view_index(whole, i);
        if i < es.len() {
            lemma_exprs_view_index(es, i);
        }
    }
    assert(exprs_view_of_seq(whole) =~= exprs_view_of_seq(es).push(expr_view(e)));
}

pub proof fn lemma_pairs_view_push(ps: Seq<(Expr, Expr)>, p: (Expr, Expr))
    ensures
        pairs_view_of_seq(ps.push(p)) == pairs_view_of_seq(ps).push(
            (expr_view(p.0), expr_view(p.1)),
        ),
{
    let whole = ps.push(p);
    let pv = (expr_view(p.0), expr_view(p.1));
    lemma_pairs_view_len(ps);
    lemma_pairs_view_len(whole);
    assert forall|i: int| 0 <= i < whole.len() implies pairs_view_of_seq(whole)[i]
        == pairs_view_of_seq(ps).push(pv)[i] by {
        lemma_pairs_view_index(whole, i);
        if i < ps.len() {
            lemma_pairs_view_index(ps, i);
        }
    }
    assert(pairs_view_of_seq(whole) =~= pairs_view_of_seq(ps).push(pv));
}

pub proof fn lemma_block_view_push(ss: Seq<Stmt>, s: Stmt)
    ensures
        block_view_of_seq(ss.push(s)) == block_view_of_seq(ss).push(stmt_view(s)),
{
    let whole = ss.push(s);
    lemma_block_view_len(ss);
    lemma_block_view_len(whole);
    assert forall|i: int| 0 <= i < whole.len() implies block_view_of_seq(whole)[i]
        == block_view_of_seq(ss).push(stmt_view(s))[i] by {
        lemma_block_view_index(whole, i);
        if i < ss.len() {
            lemma_block_view_index(ss, i);
        }
    }
    assert(block_view_of_seq(whole) =~= block_view_of_seq(ss).push(stmt_view(s)));
}

pub broadcast proof fn lemma_block_view_len(ss: Seq<Stmt>)
    ensures
        (#[trigger] block_view_of_seq(ss)).len() == ss.len(),
    decreases ss,
{
    if ss.len() > 0 {
        lemma_block_view_len(ss.subrange(1, ss.len() as int));
    }
}

pub broadcast proof fn lemma_block_view_index(ss: Seq<Stmt>, i: int)
    requires
        0 <= i < ss.len(),
    ensures
        block_view_of_seq(ss).len() == ss.len(),
        #[trigger] block_view_of_seq(ss)[i] == stmt_view(ss[i]),
    decreases ss,
{
    lemma_block_view_len(ss);
    if i > 0 {
        lemma_block_view_index(ss.subrange(1, ss.len() as int), i - 1);
    }
}

impl Ident {
    /// An owned copy with the same image.
    pub fn dup(&self) -> (r: Ident)
        ensures
            r@ == self@,
    {
        Ident(self.0.clone())
    }
}

/// A deep copy of an expression, image for image.
pub fn dup_expr(e: &Expr) -> (r: Expr)
    ensures
        expr_view(r) == expr_view(*e),
    decreases e, 0int,
{
    match e {
        Expr::Ident(name) => Expr::Ident(name.dup()),
        Expr::Literal(l) => Expr::Literal(dup_literal(l)),
        Expr::Prefix(op, operand) => Expr::Prefix(*op, Box::new(dup_expr(operand))),
        Expr::Infix(op, l, r2) => Expr::Infix(*op, Box::new(dup_expr(l)), Box::new(dup_expr(r2))),
        Expr::Index(l, ix) => Expr::Index(Box::new(dup_expr(l)), Box::new(dup_expr(ix))),
        Expr::If { cond, consequence, alternative } => {
            let alt = match alternative {
                Some(b) => Some(dup_stmts_from(b, 0, Vec::new())),
                None => None,
            };
            let r = Expr::If {
                cond: Box::new(dup_expr(cond)),
                consequence: dup_stmts_from(consequence, 0, Vec::new()),
                alternative: alt,
            };
            proof {
                lemma_views_align(r, *e);
            }
            r
        },
        Expr::Func { params, body } => {
            let mut ps: Vec<Ident> = Vec::new();
            let mut i: usize = 0;
            while i < params.len()
                invariant
                    i <= params@.len(),
                    ps@.len() == i,
                    forall|k: int| 0 <= k < i ==> (#[trigger] ps@[k])@ == params@[k]@,
                decreases params@.len() - i,
            {
                ps.push(Ident(params[i].0.clone()));
                i = i + 1;
            }
            let r = Expr::Func { params: ps, body: dup_stmts_from(body, 0, Vec::new()) };
            proof {
                lemma_views_align(r, *e);
            }
            r
        },
        Expr::Call { func, args } => {
            let r = Expr::Call {
                func: Box::new(dup_expr(func)),
                args: dup_exprs_from(args, 0, Vec::new()),
            };
            proof {
                lemma_views_align(r, *e);
            }
            r
        },
    }
}

/// Equal views follow from elementwise equal parts.
proof fn lemma_views_align(a: Expr, b: Expr)
    requires
        match (a, b) {
            (
                Expr::If { cond: c1, consequence: q1, alternative: a1 },
                Expr::If { cond: c2, consequence: q2, alternative: a2 },
            ) => {
                &&& expr_view(*c1) == expr_view(*c2)
                &&& views_eq_stmts(q1@, q2@)
                &&& (match (a1, a2) {
                    (Some(x1), Some(x2)) => views_eq_stmts(x1@, x2@),
                    (None, None) => true,
                    _ => false,
                })
            },
            (Expr::Func { params: p1, body: b1 }, Expr::Func { params: p2, body: b2 }) => {
                &&& p1@.len() == p2@.len()
                &&& (forall|k: int| 0 <= k < p1@.len() ==> (#[trigger] p1@[k])@ == p2@[k]@)
                &&& views_eq_stmts(b1@, b2@)
            },
            (Expr::Call { func: f1, args: g1 }, Expr::Call { func: f2, args: g2 }) => {
                &&& expr_view(*f1) == expr_view(*f2)
                &&& views_eq_exprs(g1@, g2@)
            },
            _ => false,
        },
    ensures
        expr_view(a) == expr_view(b),
{
    match (a, b) {
        (
            Expr::If { cond: c1, consequence: q1, alternative: a1 },
            Expr::If { cond: c2, consequence: q2, alternative: a2 },
        ) => {
            lemma_stmts_views(q1@, q2@);
            match (a1, a2) {
                (Some(x1), Some(x2)) => {
                    lemma_stmts_views(x1@, x2@);
                },
                _ => {},
            }
        },
        (Expr::Func { params: p1, body: b1 }, Expr::Func { params: p2, body: b2 }) => {
            lemma_stmts_views(b1@, b2@);
            assert(p1@.map_values(|p: Ident| p@) =~= p2@.map_values(|p: Ident| p@));
        },
        (Expr::Call { func: f1, args: g1 }, Expr::Call { func: f2, args: g2 }) => {
            lemma_exprs_views(g1@, g2@);
        },
        _ => {},
    }
}

/// Statement sequences with elementwise equal views.
pub open spec fn views_eq_stmts(a: Seq<Stmt>, b: Seq<Stmt>) -> bool {
    a.len() == b.len() && forall|k: int| 0 <= k < a.len() ==> stmt_view(#[trigger] a[k]) == stmt_view(b[k])
}

/// Expression sequences with elementwise equal views.
pub open spec fn views_eq_exprs(a: Seq<Expr>, b: Seq<Expr>) -> bool {
    a.len() == b.len() && forall|k: int| 0 <= k < a.len() ==> expr_view(#[trigger] a[k]) == expr_view(b[k])
}

proof fn lemma_stmts_views(a: Seq<Stmt>, b: Seq<Stmt>)
    requires
        views_eq_stmts(a, b),
    ensures
        block_view_of_seq(a) == block_view_of_seq(b),
{
    lemma_block_view_len(a);
    lemma_block_view_len(b);
    assert forall|k: int| 0 <= k < a.len() implies block_view_of_seq(a)[k] == block_view_of_seq(
        b,
    )[k] by {
        lemma_block_view_index(a, k);
        lemma_block_view_index(b, k);
    }
    assert(block_view_of_seq(a) =~= block_view_of_seq(b));
}

proof fn lemma_exprs_views(a: Seq<Expr>, b: Seq<Expr>)
    requires
        views_eq_exprs(a, b),
    ensures
        exprs_view_of_seq(a) == exprs_view_of_seq(b),
{
    lemma_exprs_view_len(a);
    lemma_exprs_view_len(b);
    assert forall|k: int| 0 <= k < a.len() implies exprs_view_of_seq(a)[k] == exprs_view_of_seq(
        b,
    )[k] by {
        lemma_exprs_view_index(a, k);
        lemma_exprs_view_index(b, k);
    }
    assert(exprs_view_of_seq(a) =~= exprs_view_of_seq(b));
}

/// A deep copy of a literal.
pub fn dup_literal(l: &Literal) -> (r: Literal)
    ensures
        literal_view(r) == literal_view(*l),
    decreases l, 0int,
{
    match l {
        Literal::Int(i) => Literal::Int(*i),
        Literal::String(s) => Literal::String(s.clone()),
        Literal::Bool(b) => Literal::Bool(*b),
        Literal::Array(es) => {
            let copy = dup_exprs_from(es, 0, Vec::new());
            proof {
                lemma_exprs_views(copy@, es@);
            }
            Literal::Array(copy)
        },
        Literal::Hash(ps) => {
            let copy = dup_expr_pairs_from(ps, 0, Vec::new());
            proof {
                lemma_pairs_view_len(copy@);
                lemma_pairs_view_len(ps@);
                assert forall|k: int| 0 <= k < ps@.len() implies pairs_view_of_seq(copy@)[k]
                    == pairs_view_of_seq(ps@)[k] by {
                    lemma_pairs_view_index(copy@, k);
                    lemma_pairs_view_index(ps@, k);
                }
                assert(pairs_view_of_seq(copy@) =~= pairs_view_of_seq(ps@));
            }
            Literal::Hash(copy)
        },
    }
}

/// A deep copy of a statement.
pub fn dup_stmt(s: &Stmt) -> (r: Stmt)
    ensures
        stmt_view(r) == stmt_view(*s),
    decreases s, 0int,
{
    match s {
        Stmt::Blank => Stmt::Blank,
        Stmt::Let(name, e) => Stmt::Let(name.dup(), dup_expr(e)),
        Stmt::Return(e) => Stmt::Return(dup_expr(e)),
        Stmt::Expr(e) => Stmt::Expr(dup_expr(e)),
    }
}

fn dup_stmts_from(v: &Vec<Stmt>, i: usize, acc: Vec<Stmt>) -> (r: Vec<Stmt>)
    requires
        i <= v@.len(),
        acc@.len() == i,
        forall|k: int| 0 <= k < i ==> stmt_view(#[trigger] acc@[k]) == stmt_view(v@[k]),
    ensures
        views_eq_stmts(r@, v@),
    decreases v@, v@.len() - i,
{
    if i >= v.len() {
        return acc;
    }
    let mut acc = acc;
    acc.push(dup_stmt(&v[i]));
    dup_stmts_from(v, i + 1, acc)
}

fn dup_exprs_from(v: &Vec<Expr>, i: usize, acc: Vec<Expr>) -> (r: Vec<Expr>)
    requires
        i <= v@.len(),
        acc@.len() == i,
        forall|k: int| 0 <= k < i ==> expr_view(#[trigger] acc@[k]) == expr_view(v@[k]),
    ensures
        views_eq_exprs(r@, v@),
    decreases v@, v@.len() - i,
{
    if i >= v.len() {
        return acc;
    }
    let mut acc = acc;
    acc.push(dup_expr(&v[i]));
    dup_exprs_from(v, i + 1, acc)
}

fn dup_expr_pairs_from(v: &Vec<(Expr, Expr)>, i: usize, acc: Vec<(Expr, Expr)>) -> (r: Vec<(
    Expr,
    Expr,
)>)
    requires
        i <= v@.len(),
        acc@.len() == i,
        forall|k: int|
            0 <= k < i ==> expr_view((#[trigger] acc@[k]).0) == expr_view(v@[k].0) && expr_view(
                acc@[k].1,
            ) == expr_view(v@[k].1),
    ensures
        r@.len() == v@.len(),
        forall|k: int|
            0 <= k < v@.len() ==> expr_view((#[trigger] r@[k]).0) == expr_view(v@[k].0)
                && expr_view(r@[k].1) == expr_view(v@[k].1),
    decreases v@, v@.len() - i,
{
    if i >= v.len() {
        return acc;
    }
    let mut acc = acc;
    let kv = (dup_expr(&v[i].0), dup_expr(&v[i].1));
    acc.push(kv);
    dup_expr_pairs_from(v, i + 1, acc)
}

/// A deep copy of a whole block.
pub fn dup_block(v: &Vec<Stmt>) -> (r: Vec<Stmt>)
    ensures
        block_view_of_seq(r@) == block_view_of_seq(v@),
    decreases v@, 1000int,
{
    let r = dup_stmts_from(v, 0, Vec::new());
    proof {
        lemma_stmts_views(r@, v@);
    }
    r
}


} // verus!
