//! The built-in functions, each with an exact account of the value it
//! returns; `puts` and `print` also yield the lines they want written, and
//! `quit` yields the pending exit marker.

use vstd::prelude::*;
use vstd::string::StringExecFns;
use vstd::string::StringSliceAdditionalSpecFns;
use crate::strutil::{dec_nat, nat_to_string};
use super::object::{
    obj_display, objs_view, BuiltinKind, Object, ObjectV, lemma_objs_view_index,
    lemma_objs_view_len, lemma_objs_view_push,
};

verus! {

/// A length clipped into the non-negative 64-bit range.
pub open spec fn len_i64(n: nat) -> i64 {
    if n <= 0x7FFF_FFFF_FFFF_FFFF {
        n as i64
    } else {
        0x7FFF_FFFF_FFFF_FFFF as i64
    }
}

/// What `len` returns: the byte length of a string, the element count of an
/// array, and an error for everything else.
pub open spec fn bi_len(arg: ObjectV) -> ObjectV {
    match arg {
        ObjectV::String(s) => ObjectV::Int(len_i64((vstd::utf8::encode_utf8(s).len() as usize) as nat)),
        ObjectV::Array(els) => ObjectV::Int(len_i64(els.len())),
        _ => ObjectV::Error("argument to `len` not supported, got "@ + obj_display(arg)),
    }
}

/// What `first` returns: the head of an array, `Null` when empty.
pub open spec fn bi_first(arg: ObjectV) -> ObjectV {
    match arg {
        ObjectV::Array(els) => if els.len() > 0 {
            els[0]
        } else {
            ObjectV::Null
        },
        _ => ObjectV::Error("argument to `first` must be array. got "@ + obj_display(arg)),
    }
}

/// What `last` returns: the last element of an array, `Null` when empty.
pub open spec fn bi_last(arg: ObjectV) -> ObjectV {
    match arg {
        ObjectV::Array(els) => if els.len() > 0 {
            els.last()
        } else {
            ObjectV::Null
        },
        _ => ObjectV::Error("argument to `last` must be array. got "@ + obj_display(arg)),
    }
}

/// What `rest` returns: a fresh array missing the head, `Null` when empty.
pub open spec fn bi_rest(arg: ObjectV) -> ObjectV {
    match arg {
        ObjectV::Array(els) => if els.len() > 0 {
            ObjectV::Array(els.subrange(1, els.len() as int))
        } else {
            ObjectV::Null
        },
        _ => ObjectV::Error("argument to `rest` must be array. got "@ + obj_display(arg)),
    }
}

/// What `push` returns: a fresh array with `x` appended; the input array is
/// left as it was.
pub open spec fn bi_push(arg: ObjectV, x: ObjectV) -> ObjectV {
    match arg {
        ObjectV::Array(els) => ObjectV::Array(els.push(x)),
        _ => ObjectV::Error("argument to `push` must be array. got "@ + obj_display(arg)),
    }
}

/// What `str` returns: a string unchanged, anything else its display form.
pub open spec fn bi_str(arg: ObjectV) -> ObjectV {
    match arg {
        ObjectV::String(s) => ObjectV::String(s),
        _ => ObjectV::String(obj_display(arg)),
    }
}

/// What `repr` returns: the display form, always.
pub open spec fn bi_repr(arg: ObjectV) -> ObjectV {
    ObjectV::String(obj_display(arg))
}

/// What `quit` returns: the pending exit, or a complaint about its
/// arguments.
pub open spec fn bi_quit(args: Seq<ObjectV>) -> ObjectV {
    if args.len() == 0 {
        ObjectV::Exit(0)
    } else if args.len() == 1 {
        match args[0] {
            ObjectV::Int(i) => ObjectV::Exit(i),
            _ => ObjectV::Error("argument to `quit` must be int. got "@ + obj_display(args[0])),
        }
    } else {
        ObjectV::Error(
            "Too many arguments to `quit` (want 0 or 1, got "@ + dec_nat(args.len()) + ")"@,
        )
    }
}

/// `len(x)`: byte length of a string, element count of an array.
pub fn monkey_len(args: &Vec<Object>) -> (r: Object)
    requires
        args@.len() == 1,
    ensures
        r@ == bi_len(args@[0]@),
{
    match &args[0] {
        Object::String(s) => {
            let st = s.as_str();
            let n = st.len();
            proof {
                assert(st.spec_bytes() == vstd::utf8::encode_utf8(st@));
            }
            let v: i64 = if (n as u64) <= 0x7FFF_FFFF_FFFF_FFFFu64 {
                n as i64
            } else {
                0x7FFF_FFFF_FFFF_FFFF
            };
            Object::Int(v)
        },
        Object::Array(o) => {
            let n = o.len();
            let v: i64 = if (n as u64) <= 0x7FFF_FFFF_FFFF_FFFFu64 {
                n as i64
            } else {
                0x7FFF_FFFF_FFFF_FFFF
            };
            proof {
                lemma_objs_view_len(o@);
            }
            Object::Int(v)
        },
        o => {
            let mut m = String::from_str("argument to `len` not supported, got ");
            let d = o.render();
            m.append(d.as_str());
            Object::Error(m)
        },
    }
}

/// `first(a)`: the head of an array.
pub fn monkey_first(args: &Vec<Object>) -> (r: Object)
    requires
        args@.len() == 1,
    ensures
        r@ == bi_first(args@[0]@),
{
    match &args[0] {
        Object::Array(o) => {
            if o.len() > 0 {
                proof {
                    lemma_objs_view_index(o@, 0);
                }
                o[0].dup()
            } else {
                proof {
                    lemma_objs_view_len(o@);
                }
                Object::Null
            }
        },
        o => {
            let mut m = String::from_str("argument to `first` must be array. got ");
            let d = o.render();
            m.append(d.as_str());
            Object::Error(m)
        },
    }
}

/// `last(a)`: the last element of an array.
pub fn monkey_last(args: &Vec<Object>) -> (r: Object)
    requires
        args@.len() == 1,
    ensures
        r@ == bi_last(args@[0]@),
{
    match &args[0] {
        Object::Array(o) => {
            if o.len() > 0 {
                proof {
                    lemma_objs_view_index(o@, o@.len() - 1);
                }
                o[o.len() - 1].dup()
            } else {
                proof {
                    lemma_objs_view_len(o@);
                }
                Object::Null
            }
        },
        o => {
            let mut m = String::from_str("argument to `last` must be array. got ");
            let d = o.render();
            m.append(d.as_str());
            Object::Error(m)
        },
    }
}

/// `rest(a)`: a fresh array missing the head.
pub fn monkey_rest(args: &Vec<Object>) -> (r: Object)
    requires
        args@.len() == 1,
    ensures
        r@ == bi_rest(args@[0]@),
{
    match &args[0] {
        Object::Array(o) => {
            proof {
                lemma_objs_view_len(o@);
            }
            if o.len() > 0 {
                let mut out: Vec<Object> = Vec::new();
                let mut i: usize = 1;
                while i < o.len()
                    invariant
                        1 <= i <= o@.len(),
                        out@.len() == i - 1,
                        forall|k: int| 0 <= k < i - 1 ==> (#[trigger] out@[k])@ == o@[k + 1]@,
                    decreases o@.len() - i,
                {
                    out.push(o[i].dup());
                    i = i + 1;
                }
                proof {
                    lemma_objs_view_len(out@);
                    assert forall|k: int| 0 <= k < out@.len() implies objs_view(out@)[k]
                        == objs_view(o@).subrange(1, o@.len() as int)[k] by {
                        lemma_objs_view_index(out@, k);
                        lemma_objs_view_index(o@, k + 1);
                    }
                    assert(objs_view(out@) =~= objs_view(o@).subrange(1, o@.len() as int));
                }
                Object::Array(out)
            } else {
                Object::Null
            }
        },
        o => {
            let mut m = String::from_str("argument to `rest` must be array. got ");
            let d = o.render();
            m.append(d.as_str());
            Object::Error(m)
        },
    }
}

/// `push(a, x)`: a fresh array with `x` appended; `a` is not changed.
pub fn monkey_push(args: &Vec<Object>) -> (r: Object)
    requires
        args@.len() == 2,
    ensures
        r@ == bi_push(args@[0]@, args@[1]@),
{
    match &args[0] {
        Object::Array(o) => {
            let mut arr: Vec<Object> = Vec::new();
            let mut i: usize = 0;
            while i < o.len()
                invariant
                    i <= o@.len(),
                    arr@.len() == i,
                    forall|k: int| 0 <= k < i ==> (#[trigger] arr@[k])@ == o@[k]@,
                decreases o@.len() - i,
            {
                arr.push(o[i].dup());
                i = i + 1;
            }
            arr.push(args[1].dup());
            proof {
                lemma_objs_view_len(arr@);
                lemma_objs_view_len(o@);
                assert forall|k: int| 0 <= k < arr@.len() implies objs_view(arr@)[k] == objs_view(
                    o@,
                ).push(args@[1]@)[k] by {
                    lemma_objs_view_index(arr@, k);
                    if k < o@.len() {
                        lemma_objs_view_index(o@, k);
                    }
                }
                assert(objs_view(arr@) =~= objs_view(o@).push(args@[1]@));
            }
            Object::Array(arr)
        },
        o => {
            let mut m = String::from_str("argument to `push` must be array. got ");
            let d = o.render();
            m.append(d.as_str());
            Object::Error(m)
        },
    }
}

/// `str(x)`: a string unchanged, anything else its display form.
pub fn pua_str(args: &Vec<Object>) -> (r: Object)
    requires
        args@.len() == 1,
    ensures
        r@ == bi_str(args@[0]@),
{
    match &args[0] {
        Object::String(s) => Object::String(s.clone()),
        x => Object::String(x.render()),
    }
}

/// `repr(x)`: the display form of `x`.
pub fn pua_repr(args: &Vec<Object>) -> (r: Object)
    requires
        args@.len() == 1,
    ensures
        r@ == bi_repr(args@[0]@),
{
    Object::String(args[0].render())
}

/// `print(s)`: the raw text of a string as one output line. The error
/// message for other values keeps its historic `push` wording.
pub fn pua_print(args: &Vec<Object>) -> (r: (Object, Option<String>))
    requires
        args@.len() == 1,
    ensures
        match args@[0]@ {
            ObjectV::String(s) => r.0@ == ObjectV::Null && r.1 is Some && r.1->0@ == s,
            _ => r.0@ == ObjectV::Error(
                "argument to `push` must be array. got "@ + obj_display(args@[0]@),
            ) && r.1 is None,
        },
{
    match &args[0] {
        Object::String(s) => (Object::Null, Some(s.clone())),
        o => {
            let mut m = String::from_str("argument to `push` must be array. got ");
            let d = o.render();
            m.append(d.as_str());
            (Object::Error(m), None)
        },
    }
}

/// `puts(...)`: each argument's display form as one output line.
pub fn pua_output(args: &Vec<Object>) -> (r: (Object, Vec<String>))
    ensures
        r.0@ == ObjectV::Null,
        r.1@.len() == args@.len(),
        forall|k: int|
            0 <= k < args@.len() ==> (#[trigger] r.1@[k])@ == obj_display(args@[k]@),
{
    let mut lines: Vec<String> = Vec::new();
    let mut i: usize = 0;
    while i < args.len()
        invariant
            i <= args@.len(),
            lines@.len() == i,
            forall|k: int| 0 <= k < i ==> (#[trigger] lines@[k])@ == obj_display(args@[k]@),
        decreases args@.len() - i,
    {
        lines.push(args[i].render());
        i = i + 1;
    }
    (Object::Null, lines)
}

/// `quit([code])`: asks the host to end with the given code (default 0).
pub fn pua_quit(args: &Vec<Object>) -> (r: Object)
    ensures
        r@ == bi_quit(objs_view(args@)),
{
    proof {
        lemma_objs_view_len(args@);
    }
    if args.len() == 0 {
        Object::Exit(0)
    } else if args.len() == 1 {
        proof {
            lemma_objs_view_index(args@, 0);
        }
        match &args[0] {
            Object::Int(i) => Object::Exit(*i),
            o => {
                let mut m = String::from_str("argument to `quit` must be int. got ");
                let d = o.render();
                m.append(d.as_str());
                Object::Error(m)
            },
        }
    } else {
        let mut m = String::from_str("Too many arguments to `quit` (want 0 or 1, got ");
        let n = nat_to_string(args.len() as u64);
        m.append(n.as_str());
        m.append(")");
        Object::Error(m)
    }
}

/// The built-ins registered at evaluator construction: each name in its
/// English and CJK spelling, with its arity (a negative arity takes any
/// number of arguments).
pub open spec fn builtins_spec() -> Seq<(Seq<char>, ObjectV)> {
    seq![
        ("len"@, ObjectV::Builtin(1i32, BuiltinKind::Len)),
        ("first"@, ObjectV::Builtin(1i32, BuiltinKind::First)),
        ("last"@, ObjectV::Builtin(1i32, BuiltinKind::Last)),
        ("rest"@, ObjectV::Builtin(1i32, BuiltinKind::Rest)),
        ("push"@, ObjectV::Builtin(2i32, BuiltinKind::Push)),
        ("puts"@, ObjectV::Builtin(-1i32, BuiltinKind::Puts)),
        ("quit"@, ObjectV::Builtin(-1i32, BuiltinKind::Quit)),
        ("print"@, ObjectV::Builtin(1i32, BuiltinKind::Print)),
        ("repr"@, ObjectV::Builtin(1i32, BuiltinKind::Repr)),
        ("str"@, ObjectV::Builtin(1i32, BuiltinKind::Str)),
        ("淘汰"@, ObjectV::Builtin(-1i32, BuiltinKind::Quit)),
        ("输出"@, ObjectV::Builtin(-1i32, BuiltinKind::Puts)),
        ("聚焦"@, ObjectV::Builtin(1i32, BuiltinKind::Print)),
        ("复用"@, ObjectV::Builtin(1i32, BuiltinKind::Repr)),
        ("疏通"@, ObjectV::Builtin(1i32, BuiltinKind::Str)),
    ]
}

/// The table of built-ins, ready to seed a root environment.
pub fn new_builtins() -> (r: Vec<(String, Object)>)
    ensures
        super::env::store_view(r@) == builtins_spec(),
{
    let mut r: Vec<(String, Object)> = Vec::new();
    r.push((String::from_str("len"), Object::Builtin(1, BuiltinKind::Len)));
    r.push((String::from_str("first"), Object::Builtin(1, BuiltinKind::First)));
    r.push((String::from_str("last"), Object::Builtin(1, BuiltinKind::Last)));
    r.push((String::from_str("rest"), Object::Builtin(1, BuiltinKind::Rest)));
    r.push((String::from_str("push"), Object::Builtin(2, BuiltinKind::Push)));
    r.push((String::from_str("puts"), Object::Builtin(-1, BuiltinKind::Puts)));
    r.push((String::from_str("quit"), Object::Builtin(-1, BuiltinKind::Quit)));
    r.push((String::from_str("print"), Object::Builtin(1, BuiltinKind::Print)));
    r.push((String::from_str("repr"), Object::Builtin(1, BuiltinKind::Repr)));
    r.push((String::from_str("str"), Object::Builtin(1, BuiltinKind::Str)));
    r.push((String::from_str("淘汰"), Object::Builtin(-1, BuiltinKind::Quit)));
    r.push((String::from_str("输出"), Object::Builtin(-1, BuiltinKind::Puts)));
    r.push((String::from_str("聚焦"), Object::Builtin(1, BuiltinKind::Print)));
    r.push((String::from_str("复用"), Object::Builtin(1, BuiltinKind::Repr)));
    r.push((String::from_str("疏通"), Object::Builtin(1, BuiltinKind::Str)));
    proof {
        assert(super::env::store_view(r@) =~= builtins_spec());
    }
    r
}

} // verus!
