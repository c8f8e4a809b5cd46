//! The specification-level evaluator: a mathematical function from an
//! evaluation state and a program to the final state and the result. The
//! executable walk is proved to return exactly what these functions say,
//! which makes the evaluation rules of the language — binding, closures,
//! return propagation, error short-circuiting, the built-ins' output — facts
//! of the contracts rather than of the code.

use vstd::prelude::*;
use crate::ast::{ExprV, LiteralV, StmtV};
use crate::strutil::{dec_int, dec_nat};
use super::env::{env_get_spec, lookup_store, FrameV};
use super::object::{obj_display, BuiltinKind, ObjectV};
use super::builtins::{bi_first, bi_last, bi_len, bi_push, bi_quit, bi_repr, bi_str};
use super::{aborting, hash_key_eq, hashable, index_spec, infix_spec, prefix_spec, truthy_spec};

verus! {

/// An evaluation state: the arena of frames, the active frame, and the
/// output lines produced so far.
#[verifier::ext_equal]
pub struct StV {
    pub frames: Seq<FrameV>,
    pub cur: int,
    pub out: Seq<Seq<char>>,
}

/// The state after binding `name` to `v` in frame `frame`.
pub open spec fn st_bind(st: StV, frame: int, name: Seq<char>, v: ObjectV) -> StV {
    StV {
        frames: st.frames.update(
            frame,
            FrameV { store: st.frames[frame].store.push((name, v)), outer: st.frames[frame].outer },
        ),
        cur: st.cur,
        out: st.out,
    }
}

/// The bindings a call creates: each parameter to its argument, in order.
pub open spec fn bind_store(params: Seq<Seq<char>>, args: Seq<ObjectV>) -> Seq<(Seq<char>, ObjectV)> {
    Seq::new(params.len(), |k: int| (params[k], args[k]))
}

/// Adding one key/value pair to a hash: a hashable key equal to an earlier
/// one overwrites that entry's value in place; everything else is appended.
pub open spec fn hash_insert_spec(
    ps: Seq<(ObjectV, ObjectV)>,
    k: ObjectV,
    v: ObjectV,
) -> Seq<(ObjectV, ObjectV)> {
    if hashable(k) {
        hash_upsert(ps, 0, k, v)
    } else {
        ps.push((k, v))
    }
}

/// The in-place update at the first matching key, or an append.
pub open spec fn hash_upsert(
    ps: Seq<(ObjectV, ObjectV)>,
    i: int,
    k: ObjectV,
    v: ObjectV,
) -> Seq<(ObjectV, ObjectV)>
    decreases ps.len() - i when 0 <= i <= ps.len()
{
    if i >= ps.len() {
        ps.push((k, v))
    } else if hash_key_eq(ps[i].0, k) {
        ps.update(i, (ps[i].0, v))
    } else {
        hash_upsert(ps, i + 1, k, v)
    }
}

/// The complaint when a user function gets the wrong number of arguments.
pub open spec fn msg_wrong_args_func(want: nat, got: nat) -> Seq<char> {
    "wrong number of arguments: "@ + dec_nat(want) + " expected but "@ + dec_nat(got) + " given"@
}

/// The complaint when a built-in gets the wrong number of arguments.
pub open spec fn msg_wrong_args_builtin(got: nat, want: i32) -> Seq<char> {
    "wrong number of arguments. got="@ + dec_nat(got) + ", want="@ + dec_int(want as int)
}

/// What a built-in yields, and the output lines it adds.
pub open spec fn bi_apply(st: StV, kind: BuiltinKind, args: Seq<ObjectV>) -> (StV, ObjectV) {
    match kind {
        BuiltinKind::Len => (st, if args.len() == 1 {
            bi_len(args[0])
        } else {
            ObjectV::Error("wrong number of arguments"@)
        }),
        BuiltinKind::First => (st, if args.len() == 1 {
            bi_first(args[0])
        } else {
            ObjectV::Error("wrong number of arguments"@)
        }),
        BuiltinKind::Last => (st, if args.len() == 1 {
            bi_last(args[0])
        } else {
            ObjectV::Error("wrong number of arguments"@)
        }),
        BuiltinKind::Rest => (st, if args.len() == 1 {
            bi_rest_of(args[0])
        } else {
            ObjectV::Error("wrong number of arguments"@)
        }),
        BuiltinKind::Push => (st, if args.len() == 2 {
            bi_push(args[0], args[1])
        } else {
            ObjectV::Error("wrong number of arguments"@)
        }),
        BuiltinKind::Puts => (
            StV {
                frames: st.frames,
                cur: st.cur,
                out: st.out + Seq::new(args.len(), |k: int| obj_display(args[k])),
            },
            ObjectV::Null,
        ),
        BuiltinKind::Print => if args.len() == 1 {
            match args[0] {
                ObjectV::String(s) => (
                    StV { frames: st.frames, cur: st.cur, out: st.out.push(s) },
                    ObjectV::Null,
                ),
                _ => (
                    st,
                    ObjectV::Error(
                        "argument to `push` must be array. got "@ + obj_display(args[0]),
                    ),
                ),
            }
        } else {
            (st, ObjectV::Error("wrong number of arguments"@))
        },
        BuiltinKind::Repr => (st, if args.len() == 1 {
            bi_repr(args[0])
        } else {
            ObjectV::Error("wrong number of arguments"@)
        }),
        BuiltinKind::Str => (st, if args.len() == 1 {
            bi_str(args[0])
        } else {
            ObjectV::Error("wrong number of arguments"@)
        }),
        BuiltinKind::Quit => (st, bi_quit(args)),
    }
}

/// `rest` under its own name, so this module reads uniformly.
pub open spec fn bi_rest_of(arg: ObjectV) -> ObjectV {
    super::builtins::bi_rest(arg)
}

/// One expression. Sub-expressions evaluate left to right; the first error
/// or pending exit surfaces unchanged and stops the walk.
#[verifier::opaque]
pub open spec fn ev_expr(st: StV, e: ExprV, fuel: nat) -> (StV, Option<ObjectV>)
    decreases fuel, e, 0int, 1int,
{
    match e {
        ExprV::Ident(name) => (
            st,
            Some(
                match env_get_spec(st.frames, st.cur, name) {
                    Some(v) => v,
                    None => ObjectV::Error("identifier not found: "@ + name),
                },
            ),
        ),
        ExprV::Literal(l) => match l {
            LiteralV::Int(v) => (st, Some(ObjectV::Int(v))),
            LiteralV::Bool(b) => (st, Some(ObjectV::Bool(b))),
            LiteralV::String(s) => (st, Some(ObjectV::String(s))),
            LiteralV::Array(es) => {
                let (st1, r) = ev_exprs_from(st, es, 0, Seq::empty(), fuel);
                match r {
                    Ok(vals) => (st1, Some(ObjectV::Array(vals))),
                    Err(stop) => (st1, Some(stop)),
                }
            },
            LiteralV::Hash(ps) => ev_hash_from(st, ps, 0, Seq::empty(), fuel),
        },
        ExprV::Prefix(op, operand) => {
            let (st1, r) = ev_expr(st, *operand, fuel);
            match r {
                None => (st1, None),
                Some(v) => if aborting(v) {
                    (st1, Some(v))
                } else {
                    (st1, Some(prefix_spec(op, v)))
                },
            }
        },
        ExprV::Infix(op, le, re) => {
            let (st1, lr) = ev_expr(st, *le, fuel);
            match lr {
                None => (st1, None),
                Some(lv) => if aborting(lv) {
                    (st1, Some(lv))
                } else {
                    let (st2, rr) = ev_expr(st1, *re, fuel);
                    match rr {
                        None => (st2, None),
                        Some(rv) => if aborting(rv) {
                            (st2, Some(rv))
                        } else {
                            (st2, Some(infix_spec(op, lv, rv)))
                        },
                    }
                },
            }
        },
        ExprV::Index(le, ie) => {
            let (st1, lr) = ev_expr(st, *le, fuel);
            match lr {
                None => (st1, None),
                Some(lv) => if aborting(lv) {
                    (st1, Some(lv))
                } else {
                    let (st2, ir) = ev_expr(st1, *ie, fuel);
                    match ir {
                        None => (st2, None),
                        Some(iv) => if aborting(iv) {
                            (st2, Some(iv))
                        } else {
                            (st2, Some(index_spec(lv, iv)))
                        },
                    }
                },
            }
        },
        ExprV::If { cond, consequence, alternative } => {
            let (st1, cr) = ev_expr(st, *cond, fuel);
            match cr {
                None => (st1, None),
                Some(cv) => if aborting(cv) {
                    (st1, Some(cv))
                } else if truthy_spec(cv) {
                    ev_block(st1, consequence, fuel)
                } else {
                    match alternative {
                        Some(alt) => ev_block(st1, alt, fuel),
                        None => (st1, None),
                    }
                },
            }
        },
        ExprV::Func { params, body } => (st, Some(ObjectV::Func(params, body, st.cur))),
        ExprV::Call { func, args } => {
            let (st1, fr) = ev_expr(st, *func, fuel);
            match fr {
                None => (st1, Some(ObjectV::Null)),
                Some(fv) => if aborting(fv) {
                    (st1, Some(fv))
                } else {
                    let (st2, ar) = ev_exprs_from(st1, args, 0, Seq::empty(), fuel);
                    match ar {
                        Err(stop) => (st2, Some(stop)),
                        Ok(argv) => match fv {
                            ObjectV::Func(params, body, fid) => if params.len() != argv.len() {
                                (
                                    st2,
                                    Some(
                                        ObjectV::Error(
                                            msg_wrong_args_func(params.len(), argv.len()),
                                        ),
                                    ),
                                )
                            } else if fuel == 0 {
                                (st2, Some(ObjectV::Error("recursion limit reached"@)))
                            } else if fid < 0 || fid >= st2.frames.len() {
                                (st2, Some(ObjectV::Error("stale function environment"@)))
                            } else {
                                let scoped = st2.frames.len() as int;
                                let st3 = StV {
                                    frames: st2.frames.push(
                                        FrameV {
                                            store: bind_store(params, argv),
                                            outer: Some(fid),
                                        },
                                    ),
                                    cur: scoped,
                                    out: st2.out,
                                };
                                let (st4, br) = ev_block(st3, body, (fuel - 1) as nat);
                                let st5 = StV { frames: st4.frames, cur: st2.cur, out: st4.out };
                                match br {
                                    Some(ObjectV::ReturnValue(b)) => (st5, Some(*b)),
                                    Some(o) => (st5, Some(o)),
                                    None => (st5, Some(ObjectV::Null)),
                                }
                            },
                            ObjectV::Builtin(arity, kind) => if arity < 0 || arity as int
                                == argv.len() {
                                let (st3, r) = bi_apply(st2, kind, argv);
                                (st3, Some(r))
                            } else {
                                (
                                    st2,
                                    Some(
                                        ObjectV::Error(msg_wrong_args_builtin(argv.len(), arity)),
                                    ),
                                )
                            },
                            other => (
                                st2,
                                Some(
                                    ObjectV::Error(obj_display(other) + " is not valid function"@),
                                ),
                            ),
                        },
                    }
                },
            }
        },
    }
}

/// One statement: a `let` binds into the active frame and has no value, a
/// `return` wraps its value in the return marker, an expression statement
/// passes its value through, a blank does nothing.
pub open spec fn ev_stmt(st: StV, s: StmtV, fuel: nat) -> (StV, Option<ObjectV>)
    decreases fuel, s, 0int, 2int,
{
    match s {
        StmtV::Let(name, e) => {
            let (st1, r) = ev_expr(st, e, fuel);
            match r {
                None => (st1, None),
                Some(v) => if aborting(v) {
                    (st1, Some(v))
                } else {
                    (st_bind(st1, st1.cur, name, v), None)
                },
            }
        },
        StmtV::Expr(e) => ev_expr(st, e, fuel),
        StmtV::Return(e) => {
            let (st1, r) = ev_expr(st, e, fuel);
            match r {
                None => (st1, None),
                Some(v) => if aborting(v) {
                    (st1, Some(v))
                } else {
                    (st1, Some(ObjectV::ReturnValue(Box::new(v))))
                },
            }
        },
        StmtV::Blank => (st, None),
    }
}

/// A block from statement `i` on, with the value gathered so far: blanks are
/// skipped, a return marker or an error or a pending exit stops the block
/// and is passed along still wrapped, otherwise the last value wins.
pub open spec fn ev_block_from(
    st: StV,
    ss: Seq<StmtV>,
    i: int,
    sofar: Option<ObjectV>,
    fuel: nat,
) -> (StV, Option<ObjectV>)
    decreases fuel, ss, ss.len() - i, 0int when 0 <= i <= ss.len()
{
    if i >= ss.len() {
        (st, sofar)
    } else if ss[i] is Blank {
        ev_block_from(st, ss, i + 1, sofar, fuel)
    } else {
        let (st1, r) = ev_stmt(st, ss[i], fuel);
        match r {
            Some(ObjectV::ReturnValue(b)) => (st1, Some(ObjectV::ReturnValue(b))),
            Some(ObjectV::Error(m)) => (st1, Some(ObjectV::Error(m))),
            Some(ObjectV::Exit(c)) => (st1, Some(ObjectV::Exit(c))),
            other => ev_block_from(st1, ss, i + 1, other, fuel),
        }
    }
}

/// A whole block.
pub open spec fn ev_block(st: StV, ss: Seq<StmtV>, fuel: nat) -> (StV, Option<ObjectV>)
    decreases fuel, ss, ss.len() + 1, 0int,
{
    ev_block_from(st, ss, 0, None, fuel)
}

/// The top level, from statement `i` on: as a block, except that a return
/// marker ends the program with its value unwrapped.
pub open spec fn ev_prog_from(
    st: StV,
    ss: Seq<StmtV>,
    i: int,
    sofar: Option<ObjectV>,
    fuel: nat,
) -> (StV, Option<ObjectV>)
    decreases fuel, ss, ss.len() - i, 2int when 0 <= i <= ss.len()
{
    if i >= ss.len() {
        (st, sofar)
    } else if ss[i] is Blank {
        ev_prog_from(st, ss, i + 1, sofar, fuel)
    } else {
        let (st1, r) = ev_stmt(st, ss[i], fuel);
        match r {
            Some(ObjectV::ReturnValue(b)) => (st1, Some(*b)),
            Some(ObjectV::Error(m)) => (st1, Some(ObjectV::Error(m))),
            Some(ObjectV::Exit(c)) => (st1, Some(ObjectV::Exit(c))),
            other => ev_prog_from(st1, ss, i + 1, other, fuel),
        }
    }
}

/// What running a whole program from state `st` yields.
pub open spec fn ev_prog(st: StV, ss: Seq<StmtV>, fuel: nat) -> (StV, Option<ObjectV>) {
    ev_prog_from(st, ss, 0, None, fuel)
}

/// A list of expressions, left to right, values gathered in order: an
/// expression with no value contributes `Null`; the first error or pending
/// exit stops everything and comes back on the `Err` side.
pub open spec fn ev_exprs_from(
    st: StV,
    es: Seq<ExprV>,
    i: int,
    acc: Seq<ObjectV>,
    fuel: nat,
) -> (StV, Result<Seq<ObjectV>, ObjectV>)
    decreases fuel, es, es.len() - i, 0int when 0 <= i <= es.len()
{
    if i >= es.len() {
        (st, Ok(acc))
    } else {
        let (st1, r) = ev_expr(st, es[i], fuel);
        let v = match r {
            Some(v) => v,
            None => ObjectV::Null,
        };
        if aborting(v) {
            (st1, Err(v))
        } else {
            ev_exprs_from(st1, es, i + 1, acc.push(v), fuel)
        }
    }
}

/// The pairs of a hash literal in source order, key before value: the first
/// error or pending exit stops everything; a later key equal to an earlier
/// one overwrites that entry's value.
pub open spec fn ev_hash_from(
    st: StV,
    ps: Seq<(ExprV, ExprV)>,
    i: int,
    acc: Seq<(ObjectV, ObjectV)>,
    fuel: nat,
) -> (StV, Option<ObjectV>)
    decreases fuel, ps, ps.len() - i, 0int when 0 <= i <= ps.len()
{
    if i >= ps.len() {
        (st, Some(ObjectV::Hash(acc)))
    } else {
        let (st1, kr) = ev_expr(st, ps[i].0, fuel);
        let k = match kr {
            Some(v) => v,
            None => ObjectV::Null,
        };
        if aborting(k) {
            (st1, Some(k))
        } else {
            let (st2, vr) = ev_expr(st1, ps[i].1, fuel);
            let v = match vr {
                Some(v) => v,
                None => ObjectV::Null,
            };
            if aborting(v) {
                (st2, Some(v))
            } else {
                ev_hash_from(st2, ps, i + 1, hash_insert_spec(acc, k, v), fuel)
            }
        }
    }
}

/// A `return V;` wrapped in `d` truthy `if` blocks.
pub open spec fn truthy_if_chain(d: nat, inner: StmtV) -> StmtV
    decreases d,
{
    if d == 0 {
        inner
    } else {
        StmtV::Expr(
            ExprV::If {
                cond: Box::new(ExprV::Literal(LiteralV::Bool(true))),
                consequence: seq![truthy_if_chain((d - 1) as nat, inner)],
                alternative: None,
            },
        )
    }
}

/// Return propagation, inner step: a `return` of an integer literal nested
/// under any depth of truthy conditions yields the return marker, still
/// wrapped, and leaves the state alone.
/// An integer literal evaluates to itself and touches nothing.
#[verifier::rlimit(100)]
#[verifier::spinoff_prover]
pub proof fn lemma_ev_lit_int(st: StV, n: i64, fuel: nat)
    ensures
        ev_expr(st, ExprV::Literal(LiteralV::Int(n)), fuel) == (st, Some(ObjectV::Int(n))),
{
    reveal(ev_expr);
}

/// A boolean literal evaluates to itself and touches nothing.
#[verifier::rlimit(100)]
#[verifier::spinoff_prover]
pub proof fn lemma_ev_lit_bool(st: StV, b: bool, fuel: nat)
    ensures
        ev_expr(st, ExprV::Literal(LiteralV::Bool(b)), fuel) == (st, Some(ObjectV::Bool(b))),
{
    reveal(ev_expr);
}

/// An `if` whose condition is the literal `true` runs its consequence block,
/// nothing else.
#[verifier::rlimit(100)]
#[verifier::spinoff_prover]
pub proof fn lemma_if_true_runs_block(st: StV, body: Seq<StmtV>, fuel: nat)
    ensures
        ev_expr(
            st,
            ExprV::If {
                cond: Box::new(ExprV::Literal(LiteralV::Bool(true))),
                consequence: body,
                alternative: None,
            },
            fuel,
        ) == ev_block(st, body, fuel),
{
    lemma_ev_lit_bool(st, true, fuel);
    reveal(ev_expr);
}

/// Return propagation, inner step: a `return` of an integer literal nested
/// under any depth of truthy conditions yields the return marker, still
/// wrapped, and leaves the state alone.
#[verifier::rlimit(100)]
#[verifier::spinoff_prover]
pub proof fn lemma_return_climbs(st: StV, d: nat, n: i64, fuel: nat)
    ensures
        ev_stmt(st, truthy_if_chain(d, StmtV::Return(ExprV::Literal(LiteralV::Int(n)))), fuel) == (
            st,
            Some(ObjectV::ReturnValue(Box::new(ObjectV::Int(n)))),
        ),
    decreases d,
{
    let inner = StmtV::Return(ExprV::Literal(LiteralV::Int(n)));
    let rv = ObjectV::ReturnValue(Box::new(ObjectV::Int(n)));
    if d == 0 {
        lemma_ev_lit_int(st, n, fuel);
    } else {
        lemma_return_climbs(st, (d - 1) as nat, n, fuel);
        let sub = truthy_if_chain((d - 1) as nat, inner);
        assert(!(sub is Blank)) by {
            if (d - 1) as nat == 0 {
            }
        }
        let body = seq![sub];
        assert(body[0] == sub);
        assert(ev_block_from(st, body, 0, None, fuel) == (st, Some(rv)));
        lemma_if_true_runs_block(st, body, fuel);
    }
}

/// Return propagation: a `return V` from the innermost of a chain of truthy
/// condition blocks is the program's final value — unwrapped at the top
/// level, with the following statements never run, whatever they are.
#[verifier::rlimit(100)]
#[verifier::spinoff_prover]
pub proof fn lemma_return_is_program_value(st: StV, d: nat, n: i64, rest: Seq<StmtV>, fuel: nat)
    ensures
        ev_prog(
            st,
            seq![truthy_if_chain(d, StmtV::Return(ExprV::Literal(LiteralV::Int(n))))] + rest,
            fuel,
        ) == (st, Some(ObjectV::Int(n))),
{
    let chain = truthy_if_chain(d, StmtV::Return(ExprV::Literal(LiteralV::Int(n))));
    let prog = seq![chain] + rest;
    assert(prog[0] == chain);
    assert(!(chain is Blank)) by {
        if d == 0 {
        }
    }
    lemma_return_climbs(st, d, n, fuel);
}

/// Error short-circuit at the top level: once a statement's evaluation
/// yields an error, the program's result is that very error, message
/// unchanged, and no later statement runs.
#[verifier::rlimit(100)]
#[verifier::spinoff_prover]
pub proof fn lemma_error_stops_program(
    st: StV,
    ss: Seq<StmtV>,
    i: int,
    sofar: Option<ObjectV>,
    fuel: nat,
    m: Seq<char>,
)
    requires
        0 <= i < ss.len(),
        !(ss[i] is Blank),
        ev_stmt(st, ss[i], fuel).1 == Some(ObjectV::Error(m)),
    ensures
        ev_prog_from(st, ss, i, sofar, fuel) == (ev_stmt(st, ss[i], fuel).0, Some(
            ObjectV::Error(m),
        )),
{
}

/// Error short-circuit inside a block: the same stop, with the error passed
/// along unchanged toward the enclosing call or program.
#[verifier::rlimit(100)]
#[verifier::spinoff_prover]
pub proof fn lemma_error_stops_block(
    st: StV,
    ss: Seq<StmtV>,
    i: int,
    sofar: Option<ObjectV>,
    fuel: nat,
    m: Seq<char>,
)
    requires
        0 <= i < ss.len(),
        !(ss[i] is Blank),
        ev_stmt(st, ss[i], fuel).1 == Some(ObjectV::Error(m)),
    ensures
        ev_block_from(st, ss, i, sofar, fuel) == (ev_stmt(st, ss[i], fuel).0, Some(
            ObjectV::Error(m),
        )),
{
}

/// Error short-circuit in an operand position: an error from the left side
/// of a binary operator is the whole expression's result, the right side
/// never evaluated.
#[verifier::rlimit(100)]
#[verifier::spinoff_prover]
pub proof fn lemma_error_stops_infix(
    st: StV,
    op: crate::ast::Infix,
    le: ExprV,
    re: ExprV,
    fuel: nat,
    m: Seq<char>,
)
    requires
        ev_expr(st, le, fuel).1 == Some(ObjectV::Error(m)),
    ensures
        ev_expr(st, ExprV::Infix(op, Box::new(le), Box::new(re)), fuel) == (
            ev_expr(st, le, fuel).0,
            Some(ObjectV::Error(m)),
        ),
{
    reveal(ev_expr);
}

/// Error short-circuit in a condition position: an error from an `if`'s
/// condition is the whole expression's result, with neither branch run.
#[verifier::rlimit(100)]
#[verifier::spinoff_prover]
pub proof fn lemma_error_stops_if(
    st: StV,
    cond: ExprV,
    consequence: Seq<StmtV>,
    alternative: Option<Seq<StmtV>>,
    fuel: nat,
    m: Seq<char>,
)
    requires
        ev_expr(st, cond, fuel).1 == Some(ObjectV::Error(m)),
    ensures
        ev_expr(
            st,
            ExprV::If { cond: Box::new(cond), consequence, alternative },
            fuel,
        ) == (ev_expr(st, cond, fuel).0, Some(ObjectV::Error(m))),
{
    reveal(ev_expr);
}


/// A name evaluates to its binding, found through the frame chain, or to
/// the not-found error; the state is untouched.
#[verifier::rlimit(100)]
#[verifier::spinoff_prover]
pub proof fn lemma_ev_ident(st: StV, name: Seq<char>, fuel: nat)
    ensures
        ev_expr(st, ExprV::Ident(name), fuel) == (
            st,
            Some(
                match env_get_spec(st.frames, st.cur, name) {
                    Some(v) => v,
                    None => ObjectV::Error("identifier not found: "@ + name),
                },
            ),
        ),
{
    reveal(ev_expr);
}

/// A function literal evaluates to a closure over the active frame.
#[verifier::rlimit(100)]
#[verifier::spinoff_prover]
pub proof fn lemma_ev_func(st: StV, params: Seq<Seq<char>>, body: Seq<StmtV>, fuel: nat)
    ensures
        ev_expr(st, ExprV::Func { params, body }, fuel) == (
            st,
            Some(ObjectV::Func(params, body, st.cur)),
        ),
{
    reveal(ev_expr);
}

/// A binary operation over two well-behaved operands applies the operator
/// to their values, left first.
#[verifier::rlimit(100)]
#[verifier::spinoff_prover]
pub proof fn lemma_ev_infix_vals(
    st: StV,
    op: crate::ast::Infix,
    le: ExprV,
    re: ExprV,
    fuel: nat,
)
    requires
        ev_expr(st, le, fuel).1 matches Some(lv) && !aborting(lv),
        ev_expr(ev_expr(st, le, fuel).0, re, fuel).1 matches Some(rv) && !aborting(rv),
    ensures
        ev_expr(st, ExprV::Infix(op, Box::new(le), Box::new(re)), fuel) == (
            ev_expr(ev_expr(st, le, fuel).0, re, fuel).0,
            Some(
                infix_spec(
                    op,
                    ev_expr(st, le, fuel).1->0,
                    ev_expr(ev_expr(st, le, fuel).0, re, fuel).1->0,
                ),
            ),
        ),
{
    reveal(ev_expr);
}

/// Appending a frame never changes what older frames resolve.
pub proof fn lemma_env_get_extend(frames: Seq<FrameV>, f: FrameV, idx: int, name: Seq<char>)
    requires
        0 <= idx < frames.len(),
    ensures
        env_get_spec(frames.push(f), idx, name) == env_get_spec(frames, idx, name),
    decreases idx,
{
    assert(frames.push(f)[idx] == frames[idx]);
    match env_get_spec(frames, idx, name) {
        _ => {
            match frames[idx].outer {
                Some(o) => {
                    if 0 <= o < idx {
                        lemma_env_get_extend(frames, f, o, name);
                    }
                },
                None => {},
            }
        },
    }
}

/// Calling a function value: the arguments are bound, parameter by
/// parameter, in a fresh frame enclosed by the frame the function captured;
/// the body runs there; a return marker is unwrapped and a valueless body
/// yields `Null`; the caller's frame becomes active again.
#[verifier::rlimit(100)]
#[verifier::spinoff_prover]
pub proof fn lemma_ev_call_of_func(st: StV, fe: ExprV, args: Seq<ExprV>, fuel: nat)
    requires
        fuel >= 1,
        ev_expr(st, fe, fuel).1 matches Some(fv) && fv matches ObjectV::Func(pv, bv, fid),
        ev_exprs_from(ev_expr(st, fe, fuel).0, args, 0, Seq::empty(), fuel).1 is Ok,
    ensures
        ({
            let st1 = ev_expr(st, fe, fuel).0;
            let pv = ev_expr(st, fe, fuel).1->0->Func_0;
            let bv = ev_expr(st, fe, fuel).1->0->Func_1;
            let fid = ev_expr(st, fe, fuel).1->0->Func_2;
            let (st2, ar) = ev_exprs_from(st1, args, 0, Seq::empty(), fuel);
            let avv = ar->Ok_0;
            ev_expr(st, ExprV::Call { func: Box::new(fe), args }, fuel) == (
                if pv.len() != avv.len() {
                    (st2, Some(ObjectV::Error(msg_wrong_args_func(pv.len(), avv.len()))))
                } else if fid < 0 || fid >= st2.frames.len() {
                    (st2, Some(ObjectV::Error("stale function environment"@)))
                } else {
                    let st3 = StV {
                        frames: st2.frames.push(
                            FrameV { store: bind_store(pv, avv), outer: Some(fid) },
                        ),
                        cur: st2.frames.len() as int,
                        out: st2.out,
                    };
                    let (st4, br) = ev_block(st3, bv, (fuel - 1) as nat);
                    let st5 = StV { frames: st4.frames, cur: st2.cur, out: st4.out };
                    match br {
                        Some(ObjectV::ReturnValue(b)) => (st5, Some(*b)),
                        Some(o) => (st5, Some(o)),
                        None => (st5, Some(ObjectV::Null)),
                    }
                }
            )
        }),
{
    reveal(ev_expr);
}

/// The closure law: applying `fn(y) { x + y }` to an integer `n`, where the
/// frame the function captures binds `x` to the integer `a`, yields
/// `a + n` (wrapping at the 64-bit edge): the free `x` resolves through the
/// captured, shared frame at the moment of the call.
#[verifier::rlimit(100)]
#[verifier::spinoff_prover]
pub proof fn lemma_closure_law(st: StV, a: i64, n: i64, fuel: nat)
    requires
        fuel >= 1,
        0 <= st.cur < st.frames.len(),
        env_get_spec(st.frames, st.cur, "x"@) == Some(ObjectV::Int(a)),
    ensures
        ({
            let adder = ExprV::Func {
                params: seq!["y"@],
                body: seq![
                    StmtV::Expr(
                        ExprV::Infix(
                            crate::ast::Infix::Plus,
                            Box::new(ExprV::Ident("x"@)),
                            Box::new(ExprV::Ident("y"@)),
                        ),
                    ),
                ],
            };
            let call = ExprV::Call { func: Box::new(adder), args: seq![
                ExprV::Literal(LiteralV::Int(n)),
            ] };
            ev_expr(st, call, fuel).1 == Some(
                ObjectV::Int(vstd::wrapping::i64_specs::wrapping_add(a, n)),
            )
        }),
{
    let params = seq!["y"@];
    let sum_expr = ExprV::Infix(
        crate::ast::Infix::Plus,
        Box::new(ExprV::Ident("x"@)),
        Box::new(ExprV::Ident("y"@)),
    );
    let body = seq![StmtV::Expr(sum_expr)];
    let adder = ExprV::Func { params, body };
    let args = seq![ExprV::Literal(LiteralV::Int(n))];
    let call = ExprV::Call { func: Box::new(adder), args };

    // the function literal closes over the active frame
    lemma_ev_func(st, params, body, fuel);
    let clos = ObjectV::Func(params, body, st.cur);

    // the one argument evaluates to its integer
    lemma_ev_lit_int(st, n, fuel);
    assert(args[0] == ExprV::Literal(LiteralV::Int(n)));
    let avv = seq![ObjectV::Int(n)];
    assert(Seq::<ObjectV>::empty().push(ObjectV::Int(n)) =~= avv);
    assert(ev_exprs_from(st, args, 1, avv, fuel) == (st, Ok::<Seq<ObjectV>, ObjectV>(avv)));
    assert(ev_exprs_from(st, args, 0, Seq::empty(), fuel) == (st, Ok::<Seq<ObjectV>, ObjectV>(
        avv,
    )));

    // the fresh frame binds y to n and is enclosed by the captured frame
    let bound = bind_store(params, avv);
    let scoped = st.frames.len() as int;
    let frame = FrameV { store: bound, outer: Some(st.cur) };
    let st3 = StV { frames: st.frames.push(frame), cur: scoped, out: st.out };

    // inside the body, y is the argument and x reads through the chain
    assert(bound.len() == 1 && bound[0] == ("y"@, ObjectV::Int(n)));
    reveal_strlit("x");
    reveal_strlit("y");
    assert("x"@ != "y"@) by {
        assert("x"@[0] == 'x' && "y"@[0] == 'y');
    }
    assert(env_get_spec(st3.frames, scoped, "y"@) == Some(ObjectV::Int(n))) by {
        assert(st3.frames[scoped] == frame);
        assert(bound.last() == ("y"@, ObjectV::Int(n)));
    }
    assert(env_get_spec(st3.frames, scoped, "x"@) == Some(ObjectV::Int(a))) by {
        assert(bound.subrange(0, 0) =~= Seq::<(Seq<char>, ObjectV)>::empty());
        assert(lookup_store(Seq::<(Seq<char>, ObjectV)>::empty(), "x"@) is None);
        assert(lookup_store(bound, "x"@) is None);
        lemma_env_get_extend(st.frames, frame, st.cur, "x"@);
    }
    lemma_ev_ident(st3, "x"@, (fuel - 1) as nat);
    lemma_ev_ident(st3, "y"@, (fuel - 1) as nat);
    lemma_ev_infix_vals(
        st3,
        crate::ast::Infix::Plus,
        ExprV::Ident("x"@),
        ExprV::Ident("y"@),
        (fuel - 1) as nat,
    );
    let sum = ObjectV::Int(vstd::wrapping::i64_specs::wrapping_add(a, n));
    assert(ev_expr(st3, sum_expr, (fuel - 1) as nat) == (st3, Some(sum)));

    // the body's one statement gives the block its value
    assert(body[0] == StmtV::Expr(sum_expr));
    assert(ev_stmt(st3, body[0], (fuel - 1) as nat) == (st3, Some(sum)));
    assert(ev_block_from(st3, body, 1, Some(sum), (fuel - 1) as nat) == (st3, Some(sum)));
    assert(ev_block_from(st3, body, 0, None, (fuel - 1) as nat) == (st3, Some(sum)));

    // the call itself: bind, run, hand the value back
    lemma_ev_call_of_func(st, adder, args, fuel);
}


/// Evaluation determinism: the final state and the result are a
/// mathematical function of the starting state and the program, so any two
/// runs from one state agree.
pub proof fn lemma_eval_deterministic(
    st: StV,
    ss: Seq<StmtV>,
    fuel: nat,
    r1: (StV, Option<ObjectV>),
    r2: (StV, Option<ObjectV>),
)
    requires
        r1 == ev_prog(st, ss, fuel),
        r2 == ev_prog(st, ss, fuel),
    ensures
        r1 == r2,
{
}


} // verus!
