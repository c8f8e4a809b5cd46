//! The tree-walking evaluator. Every value-level step (operators, indexing,
//! truthiness, the built-ins) carries an exact contract; the recursive walk
//! threads the environment arena, preserves its shape, and leaves the active
//! frame where it found it.

pub mod builtins;
pub mod env;
pub mod object;
pub mod semantics;

use vstd::prelude::*;
use vstd::string::StringExecFns;
use crate::ast::{dup_block, BlockStmt, Expr, Ident, Literal, Prefix, Infix, Program, Stmt};
use crate::strutil::{int_to_string, nat_to_string};
use builtins::{
    monkey_first, monkey_last, monkey_len, monkey_push, monkey_rest, pua_output, pua_print,
    pua_quit, pua_repr, pua_str,
};
use env::Env;
use object::{obj_display, objs_view, BuiltinKind, Object, ObjectV};
use semantics::{
    bi_apply, bind_store, ev_block, ev_block_from, ev_expr, ev_exprs_from, ev_hash_from, ev_prog,
    ev_prog_from, ev_stmt, hash_insert_spec, hash_upsert, st_bind, StV,
};
use crate::ast::{block_view, exprs_view_of_seq, lemma_block_view_index, lemma_exprs_view_index,
    lemma_pairs_view_index, literal_view, pairs_view_of_seq, ExprV, LiteralV};

verus! {

/// `Null` and `Bool(false)` are the only falsy values.
pub open spec fn truthy_spec(o: ObjectV) -> bool {
    !(o == ObjectV::Null || o == ObjectV::Bool(false))
}

/// An `Error` or a pending `Exit`: evaluation stops and surfaces it.
pub open spec fn aborting(o: ObjectV) -> bool {
    o is Error || o is Exit
}

/// The image of an optional runtime value.
pub open spec fn ov_obj(o: Option<Object>) -> Option<ObjectV> {
    match o {
        Some(x) => Some(x@),
        None => None,
    }
}

/// The output lines, seen mathematically.
pub open spec fn outs_view(out: Seq<String>) -> Seq<Seq<char>> {
    Seq::new(out.len(), |i: int| out[i]@)
}

/// What `!x` yields.
pub open spec fn not_op_spec(o: ObjectV) -> ObjectV {
    if o == ObjectV::Bool(true) {
        ObjectV::Bool(false)
    } else if o == ObjectV::Bool(false) {
        ObjectV::Bool(true)
    } else if o == ObjectV::Null {
        ObjectV::Bool(true)
    } else {
        ObjectV::Bool(false)
    }
}

/// What `-x` yields: negation of an integer (wrapping at the 64-bit edge),
/// an error for anything else.
pub open spec fn minus_prefix_spec(o: ObjectV) -> ObjectV {
    match o {
        ObjectV::Int(v) => ObjectV::Int(vstd::wrapping::i64_specs::wrapping_sub(0, v)),
        _ => ObjectV::Error("unknown operator: -"@ + obj_display(o)),
    }
}

/// What `+x` yields: an integer unchanged, an error for anything else.
pub open spec fn plus_prefix_spec(o: ObjectV) -> ObjectV {
    match o {
        ObjectV::Int(v) => ObjectV::Int(v),
        _ => ObjectV::Error("unknown operator: "@ + obj_display(o)),
    }
}

pub open spec fn prefix_spec(op: Prefix, o: ObjectV) -> ObjectV {
    match op {
        Prefix::Not => not_op_spec(o),
        Prefix::Minus => minus_prefix_spec(o),
        Prefix::Plus => plus_prefix_spec(o),
    }
}

/// The symbol an operator prints as.
pub open spec fn infix_sym(op: Infix) -> Seq<char> {
    match op {
        Infix::Plus => "+"@,
        Infix::Minus => "-"@,
        Infix::Divide => "/"@,
        Infix::Multiply => "*"@,
        Infix::Equal => "=="@,
        Infix::NotEqual => "!="@,
        Infix::GreaterThanEqual => ">="@,
        Infix::GreaterThan => ">"@,
        Infix::LessThanEqual => "<="@,
        Infix::LessThan => "<"@,
    }
}

/// Integer arithmetic and comparison: the arithmetic wraps at the 64-bit
/// edge; division truncates toward zero, and division by zero is an error.
pub open spec fn infix_int_spec(op: Infix, l: i64, r: i64) -> ObjectV {
    match op {
        Infix::Plus => ObjectV::Int(vstd::wrapping::i64_specs::wrapping_add(l, r)),
        Infix::Minus => ObjectV::Int(vstd::wrapping::i64_specs::wrapping_sub(l, r)),
        Infix::Multiply => ObjectV::Int(vstd::wrapping::i64_specs::wrapping_mul(l, r)),
        Infix::Divide => if r == 0 {
            ObjectV::Error("division by zero"@)
        } else {
            match l.checked_div(r) {
                Some(v) => ObjectV::Int(v),
                None => ObjectV::Int(i64::MIN),
            }
        },
        Infix::LessThan => ObjectV::Bool(l < r),
        Infix::LessThanEqual => ObjectV::Bool(l <= r),
        Infix::GreaterThan => ObjectV::Bool(l > r),
        Infix::GreaterThanEqual => ObjectV::Bool(l >= r),
        Infix::Equal => ObjectV::Bool(l == r),
        Infix::NotEqual => ObjectV::Bool(l != r),
    }
}

/// String operators: only `+` (concatenation) is defined.
pub open spec fn infix_str_spec(op: Infix, l: Seq<char>, r: Seq<char>) -> ObjectV {
    match op {
        Infix::Plus => ObjectV::String(l + r),
        _ => ObjectV::Error("unknown operator: "@ + l + " "@ + infix_sym(op) + " "@ + r),
    }
}

/// Binary dispatch: two integers compute, two strings concatenate, a typed
/// left side with a mismatched right is a type mismatch, anything else an
/// unknown operator.
pub open spec fn infix_spec(op: Infix, l: ObjectV, r: ObjectV) -> ObjectV {
    match l {
        ObjectV::Int(lv) => match r {
            ObjectV::Int(rv) => infix_int_spec(op, lv, rv),
            _ => ObjectV::Error(
                "type mismatch: "@ + obj_display(l) + " "@ + infix_sym(op) + " "@ + obj_display(r),
            ),
        },
        ObjectV::String(ls) => match r {
            ObjectV::String(rs) => infix_str_spec(op, ls, rs),
            _ => ObjectV::Error(
                "type mismatch: "@ + ls + " "@ + infix_sym(op) + " "@ + obj_display(r),
            ),
        },
        _ => ObjectV::Error(
            "unknown operator: "@ + obj_display(l) + " "@ + infix_sym(op) + " "@ + obj_display(r),
        ),
    }
}

/// Whether a value may serve as a hash key.
pub open spec fn hashable(o: ObjectV) -> bool {
    o is Int || o is Bool || o is String
}

/// Key equality for hashes, over the hashable values.
pub open spec fn hash_key_eq(a: ObjectV, b: ObjectV) -> bool {
    match (a, b) {
        (ObjectV::Int(x), ObjectV::Int(y)) => x == y,
        (ObjectV::Bool(x), ObjectV::Bool(y)) => x == y,
        (ObjectV::String(x), ObjectV::String(y)) => x == y,
        _ => false,
    }
}

/// The value stored under the first key equal to `k`, `Null` if none.
pub open spec fn hash_lookup_spec(ps: Seq<(ObjectV, ObjectV)>, k: ObjectV) -> ObjectV
    decreases ps.len(),
{
    if ps.len() == 0 {
        ObjectV::Null
    } else if hash_key_eq(ps[0].0, k) {
        ps[0].1
    } else {
        hash_lookup_spec(ps.subrange(1, ps.len() as int), k)
    }
}

/// What indexing yields. An array takes an integer index and yields `Null`
/// outside the bounds; a hash takes an `Int`, `Bool` or `String` key and
/// yields `Null` for a missing one; every other combination is an error.
pub open spec fn index_spec(l: ObjectV, ix: ObjectV) -> ObjectV {
    match l {
        ObjectV::Array(els) => match ix {
            ObjectV::Int(i) => if i < 0 || i >= els.len() {
                ObjectV::Null
            } else {
                els[i as int]
            },
            _ => ObjectV::Error("index operator not supported: "@ + obj_display(l)),
        },
        ObjectV::Hash(ps) => if hashable(ix) {
            hash_lookup_spec(ps, ix)
        } else if ix is Error {
            ix
        } else {
            ObjectV::Error("unusable as hash key: "@ + obj_display(ix))
        },
        _ => ObjectV::Error("index operator not supported: "@ + obj_display(l)),
    }
}

/// Array bounds: indexing an array of length `n` with `i` yields `Null`
/// exactly when `i < 0` or `i >= n`, and the `i`-th element otherwise.
pub proof fn lemma_array_bounds(els: Seq<ObjectV>, i: i64)
    ensures
        (index_spec(ObjectV::Array(els), ObjectV::Int(i)) == ObjectV::Null <== (i < 0 || i
            >= els.len())),
        (0 <= i < els.len() ==> index_spec(ObjectV::Array(els), ObjectV::Int(i)) == els[i as int]),
{
}

/// Hash key restriction: indexing a hash with any value that is not an
/// `Int`, `Bool` or `String` (and is no error already on its way out) yields
/// exactly the `unusable as hash key` error for that value.
pub proof fn lemma_hash_key_restriction(ps: Seq<(ObjectV, ObjectV)>, k: ObjectV)
    requires
        !hashable(k),
        !(k is Error),
    ensures
        index_spec(ObjectV::Hash(ps), k) == ObjectV::Error(
            "unusable as hash key: "@ + obj_display(k),
        ),
{
}

/// The evaluator: the environment arena, the active frame, and the output
/// lines the `puts`/`print` built-ins have produced so far.
pub struct Evaluator {
    pub env: Env,
    pub cur: usize,
    pub output: Vec<String>,
}

impl Evaluator {
    /// The arena is well-formed and the active frame exists.
    pub closed spec fn wf(&self) -> bool {
        &&& self.env.wf()
        &&& 0 <= self.cur < self.env.frames_v().len()
    }

    /// The evaluation state this evaluator is in.
    pub open spec fn st(&self) -> StV {
        StV {
            frames: self.env.frames_v(),
            cur: self.cur as int,
            out: outs_view(self.output@),
        }
    }

    /// An evaluator over `env`, active in its root frame, with no output
    /// yet.
    pub fn new(env: Env) -> (e: Evaluator)
        requires
            env.wf(),
        ensures
            e.wf(),
            e.env == env,
            e.cur == 0,
            e.output@ == Seq::<String>::empty(),
    {
        proof {
            env.lemma_wf_len();
        }
        Evaluator { env, cur: 0, output: Vec::new() }
    }

    /// Takes the output lines gathered so far, leaving none.
    pub fn take_output(&mut self) -> (lines: Vec<String>)
        ensures
            final(self).env == old(self).env,
            final(self).cur == old(self).cur,
            final(self).output@.len() == 0,
            lines@ == old(self).output@,
    {
        let mut out: Vec<String> = Vec::new();
        core::mem::swap(&mut out, &mut self.output);
        out
    }

    /// Whether a value counts as true in a condition.
    fn is_truthy(obj: &Object) -> (r: bool)
        ensures
            r == truthy_spec(obj@),
    {
        match obj {
            Object::Null => false,
            Object::Bool(b) => *b,
            _ => true,
        }
    }

    /// An error value carrying `msg`.
    fn error(msg: String) -> (r: Object)
        ensures
            r@ == ObjectV::Error(msg@),
    {
        Object::Error(msg)
    }

    /// Whether a value is an error marker.
    fn is_error(obj: &Object) -> (r: bool)
        ensures
            r == (obj@ is Error),
    {
        match obj {
            Object::Error(_) => true,
            _ => false,
        }
    }

    /// Whether a value stops evaluation: an error, or a pending exit.
    fn is_aborting(obj: &Object) -> (r: bool)
        ensures
            r == aborting(obj@),
    {
        match obj {
            Object::Error(_) => true,
            Object::Exit(_) => true,
            _ => false,
        }
    }

    /// Runs a whole program: statements in order, skipping blanks; a
    /// `return` ends it with the returned value unwrapped; an error or a
    /// pending exit ends it and surfaces as it is. The value of the last
    /// statement, if any, is the program's value.
    #[verifier::rlimit(100)]
    #[verifier::spinoff_prover]
    pub fn eval(&mut self, program: Program) -> (r: Option<Object>)
        requires
            old(self).wf(),
        ensures
            final(self).wf(),
            (final(self).st(), ov_obj(r)) == ev_prog(
                old(self).st(),
                block_view(program),
                EVAL_FUEL as nat,
            ),
            final(self).cur == old(self).cur,
    {
        let ghost ssv = block_view(program);
        let ghost fuel_n = EVAL_FUEL as nat;
        let mut result: Option<Object> = None;
        let mut i: usize = 0;
        proof {
            crate::ast::lemma_block_view_len(program@);
        }
        while i < program.len()
            invariant
                self.wf(),
                self.cur == old(self).cur,
                i <= program@.len(),
                ssv == block_view(program),
                ssv.len() == program@.len(),
                fuel_n == EVAL_FUEL as nat,
                ev_prog_from(old(self).st(), ssv, 0, None, fuel_n) == ev_prog_from(
                    self.st(),
                    ssv,
                    i as int,
                    ov_obj(result),
                    fuel_n,
                ),
            decreases program@.len() - i,
        {
            proof {
                lemma_block_view_index(program@, i as int);
            }
            let is_blank = matches!(&program[i], Stmt::Blank);
            if !is_blank {
                match self.eval_stmt(&program[i], EVAL_FUEL) {
                    Some(Object::ReturnValue(value)) => {
                        return Some(*value);
                    },
                    Some(Object::Error(msg)) => {
                        return Some(Object::Error(msg));
                    },
                    Some(Object::Exit(code)) => {
                        return Some(Object::Exit(code));
                    },
                    obj => {
                        result = obj;
                    },
                }
            }
            i = i + 1;
        }
        result
    }

    /// A block: as `eval`, but a `return` is not unwrapped, so it keeps
    /// travelling to the nearest call boundary.
    #[verifier::rlimit(100)]
    #[verifier::spinoff_prover]
    fn eval_block_stmt(&mut self, stmts: &BlockStmt, fuel: u64) -> (r: Option<Object>)
        requires
            old(self).wf(),
        ensures
            final(self).wf(),
            (final(self).st(), ov_obj(r)) == ev_block(
                old(self).st(),
                block_view(*stmts),
                fuel as nat,
            ),
            final(self).cur == old(self).cur,
        decreases fuel, stmts@, stmts@.len() + 1, 0int,
    {
        self.eval_block_from(stmts, 0, None, fuel)
    }

    /// The statements of a block from `i` on, with the value gathered so
    /// far.
    #[verifier::rlimit(100)]
    #[verifier::spinoff_prover]
    fn eval_block_from(&mut self, stmts: &BlockStmt, i: usize, sofar: Option<Object>, fuel: u64) -> (r:
        Option<Object>)
        requires
            old(self).wf(),
            i <= stmts@.len(),
        ensures
            final(self).wf(),
            (final(self).st(), ov_obj(r)) == ev_block_from(
                old(self).st(),
                block_view(*stmts),
                i as int,
                ov_obj(sofar),
                fuel as nat,
            ),
            final(self).cur == old(self).cur,
        decreases fuel, stmts@, stmts@.len() - i, 0int,
    {
        proof {
            crate::ast::lemma_block_view_len(stmts@);
        }
        if i >= stmts.len() {
            return sofar;
        }
        proof {
            lemma_block_view_index(stmts@, i as int);
        }
        let is_blank = matches!(&stmts[i], Stmt::Blank);
        if is_blank {
            return self.eval_block_from(stmts, i + 1, sofar, fuel);
        }
        match self.eval_stmt(&stmts[i], fuel) {
            Some(Object::ReturnValue(value)) => Some(Object::ReturnValue(value)),
            Some(Object::Error(msg)) => Some(Object::Error(msg)),
            Some(Object::Exit(code)) => Some(Object::Exit(code)),
            obj => self.eval_block_from(stmts, i + 1, obj, fuel),
        }
    }

    /// One statement: a `let` binds into the active frame (and has no value
    /// of its own), a `return` wraps its value in the return marker, an
    /// expression statement passes its value through.
    #[verifier::rlimit(100)]
    #[verifier::spinoff_prover]
    fn eval_stmt(&mut self, stmt: &Stmt, fuel: u64) -> (r: Option<Object>)
        requires
            old(self).wf(),
        ensures
            final(self).wf(),
            (final(self).st(), ov_obj(r)) == ev_stmt(old(self).st(), stmt@, fuel as nat),
            final(self).cur == old(self).cur,
        decreases fuel, stmt, 0int, 1int,
    {
        match stmt {
            Stmt::Let(ident, expr) => {
                let ghost name_v = ident@;
                let value = match self.eval_expr(expr, fuel) {
                    Some(value) => value,
                    None => {
                        return None;
                    },
                };
                if Self::is_aborting(&value) {
                    Some(value)
                } else {
                    let ghost st1 = self.st();
                    let Ident(name) = ident;
                    self.env.set(self.cur, name.clone(), &value);
                    proof {
                        assert(self.st().frames =~~= st_bind(st1, st1.cur, name_v, value@).frames);
                    }
                    None
                }
            },
            Stmt::Expr(expr) => self.eval_expr(expr, fuel),
            Stmt::Return(expr) => {
                let value = match self.eval_expr(expr, fuel) {
                    Some(value) => value,
                    None => {
                        return None;
                    },
                };
                if Self::is_aborting(&value) {
                    Some(value)
                } else {
                    Some(Object::ReturnValue(Box::new(value)))
                }
            },
            _ => None,
        }
    }

    /// A name, resolved through the frame chain.
    fn eval_ident(&mut self, ident: &Ident) -> (r: Object)
        requires
            old(self).wf(),
        ensures
            *final(self) == *old(self),
            ({
                let looked = env::env_get_spec(
                    old(self).env.frames_v(),
                    old(self).cur as int,
                    ident@,
                );
                match looked {
                    Some(v) => r@ == v,
                    None => r@ == ObjectV::Error("identifier not found: "@ + ident@),
                }
            }),
    {
        let Ident(name) = ident;
        match self.env.get(self.cur, name) {
            Some(value) => value,
            None => {
                let mut m = String::from_str("identifier not found: ");
                m.append(name.as_str());
                Object::Error(m)
            },
        }
    }

    /// A prefix operator applied to an evaluated operand.
    fn eval_prefix_expr(&mut self, prefix: &Prefix, right: Object) -> (r: Object)
        ensures
            *final(self) == *old(self),
            r@ == prefix_spec(*prefix, right@),
    {
        match prefix {
            Prefix::Not => self.eval_not_op_expr(right),
            Prefix::Minus => self.eval_minus_prefix_op_expr(right),
            Prefix::Plus => self.eval_plus_prefix_op_expr(right),
        }
    }

    fn eval_not_op_expr(&mut self, right: Object) -> (r: Object)
        ensures
            *final(self) == *old(self),
            r@ == not_op_spec(right@),
    {
        match right {
            Object::Bool(true) => Object::Bool(false),
            Object::Bool(false) => Object::Bool(true),
            Object::Null => Object::Bool(true),
            _ => Object::Bool(false),
        }
    }

    fn eval_minus_prefix_op_expr(&mut self, right: Object) -> (r: Object)
        ensures
            *final(self) == *old(self),
            r@ == minus_prefix_spec(right@),
    {
        match right {
            Object::Int(value) => Object::Int((0i64).wrapping_sub(value)),
            _ => {
                let mut m = String::from_str("unknown operator: -");
                let d = right.render();
                m.append(d.as_str());
                Self::error(m)
            },
        }
    }

    fn eval_plus_prefix_op_expr(&mut self, right: Object) -> (r: Object)
        ensures
            *final(self) == *old(self),
            r@ == plus_prefix_spec(right@),
    {
        match right {
            Object::Int(value) => Object::Int(value),
            _ => {
                let mut m = String::from_str("unknown operator: ");
                let d = right.render();
                m.append(d.as_str());
                Self::error(m)
            },
        }
    }

    /// A binary operator applied to two evaluated operands.
    fn eval_infix_expr(&mut self, infix: &Infix, left: Object, right: Object) -> (r: Object)
        ensures
            *final(self) == *old(self),
            r@ == infix_spec(*infix, left@, right@),
    {
        match &left {
            Object::Int(left_value) => {
                if let Object::Int(right_value) = &right {
                    self.eval_infix_int_expr(infix, *left_value, *right_value)
                } else {
                    let mut m = String::from_str("type mismatch: ");
                    let dl = left.render();
                    m.append(dl.as_str());
                    m.append(" ");
                    m.append(infix_sym_str(infix));
                    m.append(" ");
                    let dr = right.render();
                    m.append(dr.as_str());
                    Self::error(m)
                }
            },
            Object::String(left_value) => {
                if let Object::String(right_value) = &right {
                    self.eval_infix_string_expr(infix, left_value, right_value)
                } else {
                    let mut m = String::from_str("type mismatch: ");
                    m.append(left_value.as_str());
                    m.append(" ");
                    m.append(infix_sym_str(infix));
                    m.append(" ");
                    let dr = right.render();
                    m.append(dr.as_str());
                    Self::error(m)
                }
            },
            _ => {
                let mut m = String::from_str("unknown operator: ");
                let dl = left.render();
                m.append(dl.as_str());
                m.append(" ");
                m.append(infix_sym_str(infix));
                m.append(" ");
                let dr = right.render();
                m.append(dr.as_str());
                Self::error(m)
            },
        }
    }

    fn eval_infix_int_expr(&mut self, infix: &Infix, left: i64, right: i64) -> (r: Object)
        ensures
            *final(self) == *old(self),
            r@ == infix_int_spec(*infix, left, right),
    {
        match infix {
            Infix::Plus => Object::Int(left.wrapping_add(right)),
            Infix::Minus => Object::Int(left.wrapping_sub(right)),
            Infix::Multiply => Object::Int(left.wrapping_mul(right)),
            Infix::Divide => {
                if right == 0 {
                    Self::error(String::from_str("division by zero"))
                } else {
                    match left.checked_div(right) {
                        Some(v) => Object::Int(v),
                        None => Object::Int(i64::MIN),
                    }
                }
            },
            Infix::LessThan => Object::Bool(left < right),
            Infix::LessThanEqual => Object::Bool(left <= right),
            Infix::GreaterThan => Object::Bool(left > right),
            Infix::GreaterThanEqual => Object::Bool(left >= right),
            Infix::Equal => Object::Bool(left == right),
            Infix::NotEqual => Object::Bool(left != right),
        }
    }

    fn eval_infix_string_expr(&mut self, infix: &Infix, left: &String, right: &String) -> (r:
        Object)
        ensures
            *final(self) == *old(self),
            r@ == infix_str_spec(*infix, left@, right@),
    {
        match infix {
            Infix::Plus => {
                let mut s = left.clone();
                s.append(right.as_str());
                Object::String(s)
            },
            _ => {
                let mut m = String::from_str("unknown operator: ");
                m.append(left.as_str());
                m.append(" ");
                m.append(infix_sym_str(infix));
                m.append(" ");
                m.append(right.as_str());
                Self::error(m)
            },
        }
    }

    /// Indexing applied to evaluated operands: arrays by integer, hashes by
    /// a hashable key.
    fn eval_index_expr(&mut self, left: Object, index: Object) -> (r: Object)
        ensures
            *final(self) == *old(self),
            r@ == index_spec(left@, index@),
    {
        match left {
            Object::Array(array) => {
                if let Object::Int(i) = index {
                    self.eval_array_index_expr(array, i)
                } else {
                    let mut m = String::from_str("index operator not supported: ");
                    let d = Object::Array(array).render();
                    m.append(d.as_str());
                    Self::error(m)
                }
            },
            Object::Hash(pairs) => {
                let key_ok = matches!(&index, Object::Int(_) | Object::Bool(_) | Object::String(_));
                if key_ok {
                    hash_get(&pairs, &index)
                } else if Self::is_error(&index) {
                    index
                } else {
                    let mut m = String::from_str("unusable as hash key: ");
                    let d = index.render();
                    m.append(d.as_str());
                    Self::error(m)
                }
            },
            other => {
                let mut m = String::from_str("index operator not supported: ");
                let d = other.render();
                m.append(d.as_str());
                Self::error(m)
            },
        }
    }

    /// Indexing an array: `Null` exactly for an index below zero or at or
    /// past the length, the element itself otherwise.
    fn eval_array_index_expr(&mut self, array: Vec<Object>, index: i64) -> (r: Object)
        ensures
            *final(self) == *old(self),
            (index < 0 || index >= array@.len()) ==> r@ == ObjectV::Null,
            (0 <= index && index < array@.len()) ==> r@ == objs_view(array@)[index as int],
            r@ == index_spec(ObjectV::Array(objs_view(array@)), ObjectV::Int(index)),
    {
        proof {
            object::lemma_objs_view_len(array@);
        }
        if index < 0 {
            return Object::Null;
        }
        let n = array.len();
        if (index as u64) >= (n as u64) {
            return Object::Null;
        }
        let iu = index as usize;
        proof {
            object::lemma_objs_view_index(array@, index as int);
        }
        array[iu].dup()
    }

    /// One expression. Sub-expressions evaluate left to right; the first
    /// error or pending exit stops the walk and surfaces unchanged, so no
    /// marker is ever stored in an environment, an array or a hash.
    #[verifier::rlimit(100)]
    #[verifier::spinoff_prover]
    fn eval_expr(&mut self, expr: &Expr, fuel: u64) -> (r: Option<Object>)
        requires
            old(self).wf(),
        ensures
            final(self).wf(),
            (final(self).st(), ov_obj(r)) == ev_expr(old(self).st(), expr@, fuel as nat),
            final(self).cur == old(self).cur,
        decreases fuel, expr, 0int, 1int,
    {
        proof {
            reveal(ev_expr);
        }
        match expr {
            Expr::Ident(ident) => {
                return Some(self.eval_ident(ident));
            },
            Expr::Literal(literal) => match literal {
                Literal::Int(value) => {
                    proof {
                        assert(literal_view(*literal) == LiteralV::Int(*value));
                        assert(expr@ == ExprV::Literal(LiteralV::Int(*value)));
                    }
                    return Some(Object::Int(*value));
                },
                Literal::Bool(value) => {
                    proof {
                        assert(literal_view(*literal) == LiteralV::Bool(*value));
                        assert(expr@ == ExprV::Literal(LiteralV::Bool(*value)));
                    }
                    return Some(Object::Bool(*value));
                },
                Literal::String(value) => {
                    proof {
                        assert(literal_view(*literal) == LiteralV::String(value@));
                        assert(expr@ == ExprV::Literal(LiteralV::String(value@)));
                    }
                    return Some(Object::String(value.clone()));
                },
                Literal::Array(exprs) => {
                    proof {
                        assert(literal_view(*literal) == LiteralV::Array(
                            exprs_view_of_seq(exprs@),
                        ));
                        assert(expr@ == ExprV::Literal(
                            LiteralV::Array(exprs_view_of_seq(exprs@)),
                        ));
                        assert(objs_view(Seq::<Object>::empty()) =~= Seq::<ObjectV>::empty());
                    }
                    return match self.eval_exprs_list(exprs, 0, Vec::new(), fuel) {
                        Ok(values) => Some(Object::Array(values)),
                        Err(stop) => Some(stop),
                    };
                },
                Literal::Hash(pairs) => {
                    proof {
                        assert(literal_view(*literal) == LiteralV::Hash(
                            pairs_view_of_seq(pairs@),
                        ));
                        assert(expr@ == ExprV::Literal(
                            LiteralV::Hash(pairs_view_of_seq(pairs@)),
                        ));
                        assert(object::obj_pairs_view(Seq::<(Object, Object)>::empty())
                            =~= Seq::<(ObjectV, ObjectV)>::empty());
                    }
                    return self.eval_hash_list(pairs, 0, Vec::new(), fuel);
                },
            },
            Expr::Prefix(prefix, right_expr) => {
                let right = match self.eval_expr(right_expr, fuel) {
                    Some(v) => v,
                    None => {
                        return None;
                    },
                };
                if Self::is_aborting(&right) {
                    return Some(right);
                }
                return Some(self.eval_prefix_expr(prefix, right));
            },
            Expr::Infix(infix, left_expr, right_expr) => {
                let left = match self.eval_expr(left_expr, fuel) {
                    Some(v) => v,
                    None => {
                        return None;
                    },
                };
                if Self::is_aborting(&left) {
                    return Some(left);
                }
                let right = match self.eval_expr(right_expr, fuel) {
                    Some(v) => v,
                    None => {
                        return None;
                    },
                };
                if Self::is_aborting(&right) {
                    return Some(right);
                }
                return Some(self.eval_infix_expr(infix, left, right));
            },
            Expr::Index(left_expr, index_expr) => {
                let left = match self.eval_expr(left_expr, fuel) {
                    Some(v) => v,
                    None => {
                        return None;
                    },
                };
                if Self::is_aborting(&left) {
                    return Some(left);
                }
                let index = match self.eval_expr(index_expr, fuel) {
                    Some(v) => v,
                    None => {
                        return None;
                    },
                };
                if Self::is_aborting(&index) {
                    return Some(index);
                }
                return Some(self.eval_index_expr(left, index));
            },
            Expr::If { cond, consequence, alternative } => {
                let c = match self.eval_expr(cond, fuel) {
                    Some(v) => v,
                    None => {
                        return None;
                    },
                };
                if Self::is_aborting(&c) {
                    return Some(c);
                }
                if Self::is_truthy(&c) {
                    return self.eval_block_stmt(consequence, fuel);
                } else {
                    match alternative {
                        Some(alt) => {
                            return self.eval_block_stmt(alt, fuel);
                        },
                        None => {
                            return None;
                        },
                    }
                }
            },
            Expr::Func { params, body } => {
                let mut ps: Vec<Ident> = Vec::new();
                let mut i: usize = 0;
                while i < params.len()
                    invariant
                        i <= params@.len(),
                        ps@.len() == i,
                        forall|k: int| 0 <= k < i ==> (#[trigger] ps@[k])@ == params@[k]@,
                    decreases params@.len() - i,
                {
                    ps.push(Ident(params[i].0.clone()));
                    i = i + 1;
                }
                proof {
                    assert(ps@.map_values(|p: Ident| p@) =~= params@.map_values(|p: Ident| p@));
                }
                return Some(Object::Func(ps, dup_block(body), self.cur));
            },
            Expr::Call { func, args } => {
                let callee = match self.eval_expr(func, fuel) {
                    Some(v) => v,
                    None => {
                        return Some(Object::Null);
                    },
                };
                if Self::is_aborting(&callee) {
                    return Some(callee);
                }
                let ghost fv = callee@;
                proof {
                    assert(objs_view(Seq::<Object>::empty()) =~= Seq::<ObjectV>::empty());
                }
                let argv = match self.eval_exprs_list(args, 0, Vec::new(), fuel) {
                    Ok(values) => values,
                    Err(stop) => {
                        return Some(stop);
                    },
                };
                let ghost st2 = self.st();
                let ghost avv = objs_view(argv@);
                proof {
                    object::lemma_objs_view_len(argv@);
                }
                match callee {
                    Object::Func(params, body, fid) => {
                        let ghost pv = params@.map_values(|p: Ident| p@);
                        if params.len() != argv.len() {
                            let mut m = String::from_str("wrong number of arguments: ");
                            let p = nat_to_string(params.len() as u64);
                            m.append(p.as_str());
                            m.append(" expected but ");
                            let a = nat_to_string(argv.len() as u64);
                            m.append(a.as_str());
                            m.append(" given");
                            return Some(Self::error(m));
                        }
                        if fuel == 0 {
                            return Some(
                                Self::error(String::from_str("recursion limit reached")),
                            );
                        }
                        // frames are never removed, so a function value's frame is
                        // always present; the check keeps the walk total without
                        // threading that invariant through every stored value
                        if fid >= self.env.len() {
                            return Some(
                                Self::error(String::from_str("stale function environment")),
                            );
                        }
                        let saved = self.cur;
                        let scoped = self.env.new_with_outer(fid);
                        let ghost frames2 = st2.frames;
                        proof {
                            assert(self.env.frames_v() =~~= frames2.push(
                                env::FrameV {
                                    store: Seq::new(0 as nat, |k: int| (params@[k]@, argv@[k]@)),
                                    outer: Some(fid as int),
                                },
                            ));
                        }
                        let mut i: usize = 0;
                        while i < params.len()
                            invariant
                                self.env.wf(),
                                scoped < self.env.frames_v().len(),
                                scoped == frames2.len(),
                                params@.len() == argv@.len(),
                                i <= params@.len(),
                                self.cur == old(self).cur,
                                saved == old(self).cur,
                                self.wf(),
                                outs_view(self.output@) == st2.out,
                                avv == objs_view(argv@),
                                avv.len() == argv@.len(),
                                pv == params@.map_values(|p: Ident| p@),
                                self.env.frames_v() == frames2.push(
                                    env::FrameV {
                                        store: Seq::new(
                                            i as nat,
                                            |k: int| (params@[k]@, argv@[k]@),
                                        ),
                                        outer: Some(fid as int),
                                    },
                                ),
                            decreases params@.len() - i,
                        {
                            proof {
                                object::lemma_objs_view_index(argv@, i as int);
                            }
                            self.env.set(scoped, params[i].0.clone(), &argv[i]);
                            proof {
                                assert(self.env.frames_v() =~~= frames2.push(
                                    env::FrameV {
                                        store: Seq::new(
                                            i as nat + 1,
                                            |k: int| (params@[k]@, argv@[k]@),
                                        ),
                                        outer: Some(fid as int),
                                    },
                                ));
                            }
                            i = i + 1;
                        }
                        proof {
                            assert(Seq::new(
                                params@.len(),
                                |k: int| (params@[k]@, argv@[k]@),
                            ) =~= bind_store(pv, avv)) by {
                                object::lemma_objs_view_len(argv@);
                                assert forall|k: int| 0 <= k < params@.len() implies (
                                    params@[k]@,
                                    argv@[k]@,
                                ) == (pv[k], avv[k]) by {
                                    object::lemma_objs_view_index(argv@, k);
                                }
                            }
                            assert(self.env.frames_v() =~~= st2.frames.push(
                                env::FrameV { store: bind_store(pv, avv), outer: Some(fid as int) },
                            ));
                        }
                        self.cur = scoped;
                        proof {
                            assert(self.st() =~~= StV {
                                frames: st2.frames.push(
                                    env::FrameV {
                                        store: bind_store(pv, avv),
                                        outer: Some(fid as int),
                                    },
                                ),
                                cur: st2.frames.len() as int,
                                out: st2.out,
                            });
                        }
                        let result = self.eval_block_stmt(&body, fuel - 1);
                        self.cur = saved;
                        return match result {
                            Some(Object::ReturnValue(o)) => Some(*o),
                            Some(o) => Some(o),
                            None => Some(Object::Null),
                        };
                    },
                    Object::Builtin(expect_param_num, kind) => {
                        let arity_matches = if expect_param_num < 0 {
                            true
                        } else {
                            (expect_param_num as usize) == argv.len()
                        };
                        if arity_matches {
                            return Some(self.apply_builtin(kind, argv));
                        } else {
                            let mut m = String::from_str("wrong number of arguments. got=");
                            let a = nat_to_string(argv.len() as u64);
                            m.append(a.as_str());
                            m.append(", want=");
                            let w = int_to_string(expect_param_num as i64);
                            m.append(w.as_str());
                            return Some(Self::error(m));
                        }
                    },
                    o => {
                        let mut m = o.render();
                        m.append(" is not valid function");
                        return Some(Self::error(m));
                    },
                }
            },
        }
    }

    /// Evaluates a list of expressions left to right: missing values become
    /// `Null`; the first error or pending exit stops everything.
    #[verifier::rlimit(100)]
    #[verifier::spinoff_prover]
    fn eval_exprs_list(
        &mut self,
        exprs: &Vec<Expr>,
        i: usize,
        acc: Vec<Object>,
        fuel: u64,
    ) -> (r: Result<Vec<Object>, Object>)
        requires
            old(self).wf(),
            i <= exprs@.len(),
        ensures
            final(self).wf(),
            ({
                let (stv, rv) = ev_exprs_from(
                    old(self).st(),
                    exprs_view_of_seq(exprs@),
                    i as int,
                    objs_view(acc@),
                    fuel as nat,
                );
                &&& final(self).st() == stv
                &&& (match r {
                    Ok(vals) => rv == Ok::<Seq<ObjectV>, ObjectV>(objs_view(vals@)),
                    Err(stop) => rv == Err::<Seq<ObjectV>, ObjectV>(stop@),
                })
            }),
            final(self).cur == old(self).cur,
        decreases fuel, exprs@, exprs@.len() - i, 0int,
    {
        proof {
            crate::ast::lemma_exprs_view_len(exprs@);
        }
        if i >= exprs.len() {
            return Ok(acc);
        }
        proof {
            lemma_exprs_view_index(exprs@, i as int);
        }
        let v = match self.eval_expr(&exprs[i], fuel) {
            Some(v) => v,
            None => Object::Null,
        };
        if Self::is_aborting(&v) {
            return Err(v);
        }
        let mut acc = acc;
        let ghost acc_v = objs_view(acc@);
        proof {
            object::lemma_objs_view_push(acc@, v);
        }
        acc.push(v);
        self.eval_exprs_list(exprs, i + 1, acc, fuel)
    }

    /// Evaluates the pairs of a hash literal in source order: a later key
    /// equal (as a hash key) to an earlier one overwrites its value in
    /// place; keys that cannot serve as hash keys are kept as they come.
    #[verifier::rlimit(100)]
    #[verifier::spinoff_prover]
    fn eval_hash_list(
        &mut self,
        pairs: &Vec<(Expr, Expr)>,
        i: usize,
        acc: Vec<(Object, Object)>,
        fuel: u64,
    ) -> (r: Option<Object>)
        requires
            old(self).wf(),
            i <= pairs@.len(),
        ensures
            final(self).wf(),
            (final(self).st(), ov_obj(r)) == ev_hash_from(
                old(self).st(),
                pairs_view_of_seq(pairs@),
                i as int,
                object::obj_pairs_view(acc@),
                fuel as nat,
            ),
            final(self).cur == old(self).cur,
        decreases fuel, pairs@, pairs@.len() - i, 0int,
    {
        proof {
            crate::ast::lemma_pairs_view_len(pairs@);
        }
        if i >= pairs.len() {
            return Some(Object::Hash(acc));
        }
        proof {
            lemma_pairs_view_index(pairs@, i as int);
        }
        let key = match self.eval_expr(&pairs[i].0, fuel) {
            Some(v) => v,
            None => Object::Null,
        };
        if Self::is_aborting(&key) {
            return Some(key);
        }
        let value = match self.eval_expr(&pairs[i].1, fuel) {
            Some(v) => v,
            None => Object::Null,
        };
        if Self::is_aborting(&value) {
            return Some(value);
        }
        let mut acc = acc;
        hash_insert(&mut acc, key, value);
        self.eval_hash_list(pairs, i + 1, acc, fuel)
    }

    /// Runs a built-in on its evaluated arguments; `puts` and `print` add
    /// their lines to the gathered output.
    #[verifier::rlimit(100)]
    #[verifier::spinoff_prover]
    fn apply_builtin(&mut self, kind: BuiltinKind, args: Vec<Object>) -> (r: Object)
        requires
            old(self).wf(),
        ensures
            final(self).wf(),
            (final(self).st(), r@) == bi_apply(old(self).st(), kind, objs_view(args@)),
            final(self).cur == old(self).cur,
            final(self).env == old(self).env,
    {
        proof {
            object::lemma_objs_view_len(args@);
            if args@.len() >= 1 {
                object::lemma_objs_view_index(args@, 0);
            }
            if args@.len() >= 2 {
                object::lemma_objs_view_index(args@, 1);
            }
        }
        match kind {
            BuiltinKind::Len => {
                if args.len() == 1 {
                    monkey_len(&args)
                } else {
                    Self::error(String::from_str("wrong number of arguments"))
                }
            },
            BuiltinKind::First => {
                if args.len() == 1 {
                    monkey_first(&args)
                } else {
                    Self::error(String::from_str("wrong number of arguments"))
                }
            },
            BuiltinKind::Last => {
                if args.len() == 1 {
                    monkey_last(&args)
                } else {
                    Self::error(String::from_str("wrong number of arguments"))
                }
            },
            BuiltinKind::Rest => {
                if args.len() == 1 {
                    monkey_rest(&args)
                } else {
                    Self::error(String::from_str("wrong number of arguments"))
                }
            },
            BuiltinKind::Push => {
                if args.len() == 2 {
                    monkey_push(&args)
                } else {
                    Self::error(String::from_str("wrong number of arguments"))
                }
            },
            BuiltinKind::Puts => {
                let (r, mut lines) = pua_output(&args);
                let ghost out_before = self.output@;
                let ghost lines_v = lines@;
                self.output.append(&mut lines);
                proof {
                    assert(outs_view(self.output@) =~~= outs_view(out_before) + Seq::new(
                        objs_view(args@).len(),
                        |k: int| obj_display(objs_view(args@)[k]),
                    )) by {
                        assert forall|k: int| 0 <= k < args@.len() implies obj_display(
                            objs_view(args@)[k],
                        ) == lines_v[k]@ by {
                            object::lemma_objs_view_index(args@, k);
                        }
                    }
                }
                r
            },
            BuiltinKind::Print => {
                if args.len() == 1 {
                    let (r, line) = pua_print(&args);
                    match line {
                        Some(l) => {
                            let ghost out_before = self.output@;
                            self.output.push(l);
                            proof {
                                assert(outs_view(self.output@) =~~= outs_view(out_before).push(
                                    self.output@.last()@,
                                ));
                            }
                        },
                        None => {},
                    }
                    r
                } else {
                    Self::error(String::from_str("wrong number of arguments"))
                }
            },
            BuiltinKind::Repr => {
                if args.len() == 1 {
                    pua_repr(&args)
                } else {
                    Self::error(String::from_str("wrong number of arguments"))
                }
            },
            BuiltinKind::Str => {
                if args.len() == 1 {
                    pua_str(&args)
                } else {
                    Self::error(String::from_str("wrong number of arguments"))
                }
            },
            BuiltinKind::Quit => pua_quit(&args),
        }
    }
}

/// The value stored in `pairs` under the first key equal to `key`.
fn hash_get(pairs: &Vec<(Object, Object)>, key: &Object) -> (r: Object)
    ensures
        r@ == hash_lookup_spec(object::obj_pairs_view(pairs@), key@),
{
    proof {
        object::lemma_obj_pairs_view_len(pairs@);
        assert(object::obj_pairs_view(pairs@).subrange(0, pairs@.len() as int)
            =~= object::obj_pairs_view(pairs@));
    }
    let mut i: usize = 0;
    while i < pairs.len()
        invariant
            i <= pairs@.len(),
            hash_lookup_spec(object::obj_pairs_view(pairs@), key@) == hash_lookup_spec(
                object::obj_pairs_view(pairs@).subrange(i as int, pairs@.len() as int),
                key@,
            ),
        decreases pairs@.len() - i,
    {
        proof {
            object::lemma_obj_pairs_view_index(pairs@, i as int);
        }
        if obj_key_eq(&pairs[i].0, key) {
            return pairs[i].1.dup();
        }
        proof {
            let tail = object::obj_pairs_view(pairs@).subrange(i as int, pairs@.len() as int);
            assert(tail[0] == object::obj_pairs_view(pairs@)[i as int]);
            assert(tail.subrange(1, tail.len() as int) =~= object::obj_pairs_view(
                pairs@,
            ).subrange(i as int + 1, pairs@.len() as int));
        }
        i = i + 1;
    }
    Object::Null
}


/// Adds one key/value pair: a hashable key equal to an earlier one
/// overwrites that entry's value in place; everything else is appended.
fn hash_insert(pairs: &mut Vec<(Object, Object)>, key: Object, value: Object)
    ensures
        object::obj_pairs_view(final(pairs)@) == hash_insert_spec(
            object::obj_pairs_view(old(pairs)@),
            key@,
            value@,
        ),
{
    let ghost psv = object::obj_pairs_view(pairs@);
    proof {
        object::lemma_obj_pairs_view_len(pairs@);
    }
    let hashable_key = matches!(&key, Object::Int(_) | Object::Bool(_) | Object::String(_));
    if hashable_key {
        let mut i: usize = 0;
        while i < pairs.len()
            invariant
                i <= pairs@.len(),
                pairs@ == old(pairs)@,
                psv == object::obj_pairs_view(pairs@),
                psv.len() == pairs@.len(),
                hashable(key@),
                hash_upsert(psv, 0, key@, value@) == hash_upsert(psv, i as int, key@, value@),
            decreases pairs@.len() - i,
        {
            proof {
                object::lemma_obj_pairs_view_index(pairs@, i as int);
            }
            if obj_key_eq(&pairs[i].0, &key) {
                let ghost before = pairs@;
                pairs[i].1 = value;
                proof {
                    assert(pairs@ =~= before.update(i as int, (before[i as int].0, value)));
                    object::lemma_obj_pairs_view_len(pairs@);
                    assert forall|k: int| 0 <= k < pairs@.len() implies object::obj_pairs_view(
                        pairs@,
                    )[k] == psv.update(i as int, (psv[i as int].0, value@))[k] by {
                        object::lemma_obj_pairs_view_index(pairs@, k);
                        object::lemma_obj_pairs_view_index(before, k);
                    }
                    assert(object::obj_pairs_view(pairs@) =~= psv.update(
                        i as int,
                        (psv[i as int].0, value@),
                    ));
                }
                return ;
            }
            i = i + 1;
        }
        proof {
            object::lemma_obj_pairs_view_push(pairs@, (key, value));
        }
        pairs.push((key, value));
    } else {
        proof {
            object::lemma_obj_pairs_view_push(pairs@, (key, value));
        }
        pairs.push((key, value));
    }
}

/// Key equality over the hashable values.
fn obj_key_eq(a: &Object, b: &Object) -> (r: bool)
    ensures
        r == hash_key_eq(a@, b@),
{
    match (a, b) {
        (Object::Int(x), Object::Int(y)) => *x == *y,
        (Object::Bool(x), Object::Bool(y)) => *x == *y,
        (Object::String(x), Object::String(y)) => *x == *y,
        _ => false,
    }
}

/// The symbol an operator prints as.
fn infix_sym_str(op: &Infix) -> (r: &'static str)
    ensures
        r@ == infix_sym(*op),
{
    match op {
        Infix::Plus => "+",
        Infix::Minus => "-",
        Infix::Divide => "/",
        Infix::Multiply => "*",
        Infix::Equal => "==",
        Infix::NotEqual => "!=",
        Infix::GreaterThanEqual => ">=",
        Infix::GreaterThan => ">",
        Infix::LessThanEqual => "<=",
        Infix::LessThan => "<",
    }
}

/// The call-depth budget: far beyond any recursion the host's stack could
/// carry, so in practice only genuinely unbounded recursion meets it.
pub const EVAL_FUEL: u64 = 0xFFFF_FFFF_FFFF_FFFF;

} // verus!
