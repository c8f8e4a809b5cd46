//! Runtime values: a closed tagged sum, its mathematical image, deep
//! copying, and the display form the REPL and the error messages use.

use vstd::prelude::*;
use vstd::string::StringExecFns;
use vstd::string::StrSliceExecFns;
use crate::ast::{BlockStmt, Ident, StmtV, block_view_of_seq};
use crate::lexer::unescape::escape_str_spec;
use crate::strutil::{dec_int, push_char};

verus! {

/// Which built-in function a `Builtin` value stands for.
#[derive(Debug, PartialEq, Eq, Clone, Copy)]
pub enum BuiltinKind {
    Len,
    First,
    Last,
    Rest,
    Push,
    Puts,
    Print,
    Repr,
    Str,
    Quit,
}

/// A runtime value. `ReturnValue` and `Error` are transient control markers;
/// `Exit` carries a pending request to end the host process, which the
/// embedding driver performs. A `Func` keeps the index of the environment
/// frame it captured.
#[derive(Debug, PartialEq)]
pub enum Object {
    Int(i64),
    String(String),
    Bool(bool),
    Array(Vec<Object>),
    Hash(Vec<(Object, Object)>),
    Func(Vec<Ident>, BlockStmt, usize),
    Builtin(i32, BuiltinKind),
    Null,
    ReturnValue(Box<Object>),
    Error(String),
    Exit(i64),
}

/// The mathematical image of a runtime value.
pub enum ObjectV {
    Int(i64),
    String(Seq<char>),
    Bool(bool),
    Array(Seq<ObjectV>),
    Hash(Seq<(ObjectV, ObjectV)>),
    Func(Seq<Seq<char>>, Seq<StmtV>, int),
    Builtin(i32, BuiltinKind),
    Null,
    ReturnValue(Box<ObjectV>),
    Error(Seq<char>),
    Exit(i64),
}

pub open spec fn obj_view(o: Object) -> ObjectV
    decreases o,
{
    match o {
        Object::Int(i) => ObjectV::Int(i),
        Object::String(s) => ObjectV::String(s@),
        Object::Bool(b) => ObjectV::Bool(b),
        Object::Array(els) => ObjectV::Array(objs_view(els@)),
        Object::Hash(ps) => ObjectV::Hash(obj_pairs_view(ps@)),
        Object::Func(params, body, env) => ObjectV::Func(
            params@.map_values(|p: Ident| p@),
            block_view_of_seq(body@),
            env as int,
        ),
        Object::Builtin(arity, k) => ObjectV::Builtin(arity, k),
        Object::Null => ObjectV::Null,
        Object::ReturnValue(b) => ObjectV::ReturnValue(Box::new(obj_view(*b))),
        Object::Error(m) => ObjectV::Error(m@),
        Object::Exit(c) => ObjectV::Exit(c),
    }
}

pub open spec fn objs_view(os: Seq<Object>) -> Seq<ObjectV>
    decreases os,
{
    if os.len() == 0 {
        Seq::empty()
    } else {
        seq![obj_view(os[0])] + objs_view(os.subrange(1, os.len() as int))
    }
}

pub open spec fn obj_pairs_view(ps: Seq<(Object, Object)>) -> Seq<(ObjectV, ObjectV)>
    decreases ps,
{
    if ps.len() == 0 {
        Seq::empty()
    } else {
        seq![(obj_view(ps[0].0), obj_view(ps[0].1))] + obj_pairs_view(ps.subrange(1, ps.len() as int))
    }
}

impl View for Object {
    type V = ObjectV;

    open spec fn view(&self) -> ObjectV {
        obj_view(*self)
    }
}

pub broadcast proof fn lemma_objs_view_len(os: Seq<Object>)
    ensures
        (#[trigger] objs_view(os)).len() == os.len(),
    decreases os,
{
    if os.len() > 0 {
        lemma_objs_view_len(os.subrange(1, os.len() as int));
    }
}

pub broadcast proof fn lemma_objs_view_index(os: Seq<Object>, i: int)
    requires
        0 <= i < os.len(),
    ensures
        objs_view(os).len() == os.len(),
        #[trigger] objs_view(os)[i] == obj_view(os[i]),
    decreases os,
{
    lemma_objs_view_len(os);
    if i > 0 {
        lemma_objs_view_index(os.subrange(1, os.len() as int), i - 1);
    }
}

pub proof fn lemma_objs_view_push(os: Seq<Object>, o: Object)
    ensures
        objs_view(os.push(o)) == objs_view(os).push(obj_view(o)),
{
    let whole = os.push(o);
    lemma_objs_view_len(os);
    lemma_objs_view_len(whole);
    assert forall|i: int| 0 <= i < whole.len() implies objs_view(whole)[i] == objs_view(os).push(
        obj_view(o),
    )[i] by {
        lemma_objs_view_index(whole, i);
        if i < os.len() {
            lemma_objs_view_index(os, i);
        }
    }
    assert(objs_view(whole) =~= objs_view(os).push(obj_view(o)));
}

pub broadcast proof fn lemma_obj_pairs_view_len(ps: Seq<(Object, Object)>)
    ensures
        (#[trigger] obj_pairs_view(ps)).len() == ps.len(),
    decreases ps,
{
    if ps.len() > 0 {
        lemma_obj_pairs_view_len(ps.subrange(1, ps.len() as int));
    }
}

pub broadcast proof fn lemma_obj_pairs_view_index(ps: Seq<(Object, Object)>, i: int)
    requires
        0 <= i < ps.len(),
    ensures
        obj_pairs_view(ps).len() == ps.len(),
        #[trigger] obj_pairs_view(ps)[i] == (obj_view(ps[i].0), obj_view(ps[i].1)),
    decreases ps,
{
    lemma_obj_pairs_view_len(ps);
    if i > 0 {
        lemma_obj_pairs_view_index(ps.subrange(1, ps.len() as int), i - 1);
    }
}

pub proof fn lemma_obj_pairs_view_push(ps: Seq<(Object, Object)>, p: (Object, Object))
    ensures
        obj_pairs_view(ps.push(p)) == obj_pairs_view(ps).push((obj_view(p.0), obj_view(p.1))),
{
    let whole = ps.push(p);
    lemma_obj_pairs_view_len(ps);
    lemma_obj_pairs_view_len(whole);
    assert forall|i: int| 0 <= i < whole.len() implies obj_pairs_view(whole)[i] == obj_pairs_view(
        ps,
    ).push((obj_view(p.0), obj_view(p.1)))[i] by {
        lemma_obj_pairs_view_index(whole, i);
        if i < ps.len() {
            lemma_obj_pairs_view_index(ps, i);
        }
    }
    assert(obj_pairs_view(whole) =~= obj_pairs_view(ps).push((obj_view(p.0), obj_view(p.1))));
}

impl Object {
    /// A deep copy with the same image.
    pub fn dup(&self) -> (r: Object)
        ensures
            r@ == self@,
        decreases self, 0int,
    {
        match self {
            Object::Int(i) => Object::Int(*i),
            Object::String(s) => Object::String(s.clone()),
            Object::Bool(b) => Object::Bool(*b),
            Object::Array(els) => {
                let ghost target = objs_view(els@);
                let copy = dup_objs_from(els, 0, Vec::new());
                proof {
                    lemma_objs_view_len(copy@);
                    lemma_objs_view_len(els@);
                    assert forall|k: int| 0 <= k < els@.len() implies objs_view(copy@)[k]
                        == objs_view(els@)[k] by {
                        lemma_objs_view_index(copy@, k);
                        lemma_objs_view_index(els@, k);
                    }
                    assert(objs_view(copy@) =~= objs_view(els@));
                }
                Object::Array(copy)
            },
            Object::Hash(ps) => {
                let copy = dup_pairs_from(ps, 0, Vec::new());
                proof {
                    lemma_obj_pairs_view_len(copy@);
                    lemma_obj_pairs_view_len(ps@);
                    assert forall|k: int| 0 <= k < ps@.len() implies obj_pairs_view(copy@)[k]
                        == obj_pairs_view(ps@)[k] by {
                        lemma_obj_pairs_view_index(copy@, k);
                        lemma_obj_pairs_view_index(ps@, k);
                    }
                    assert(obj_pairs_view(copy@) =~= obj_pairs_view(ps@));
                }
                Object::Hash(copy)
            },
            Object::Func(params, body, env) => {
                let p2 = dup_idents(params);
                let b2 = crate::ast::dup_block(body);
                Object::Func(p2, b2, *env)
            },
            Object::Builtin(arity, k) => Object::Builtin(*arity, *k),
            Object::Null => Object::Null,
            Object::ReturnValue(b) => Object::ReturnValue(Box::new(b.dup())),
            Object::Error(m) => Object::Error(m.clone()),
            Object::Exit(c) => Object::Exit(*c),
        }
    }
}

fn dup_objs_from(os: &Vec<Object>, i: usize, acc: Vec<Object>) -> (r: Vec<Object>)
    requires
        i <= os@.len(),
    ensures
        r@.len() == acc@.len() + os@.len() - i,
        forall|k: int| 0 <= k < acc@.len() ==> #[trigger] r@[k] == acc@[k],
        forall|k: int|
            acc@.len() <= k < r@.len() ==> (#[trigger] r@[k])@ == os@[k - acc@.len() + i]@,
    decreases os@, os@.len() - i,
{
    if i >= os.len() {
        return acc;
    }
    let mut acc = acc;
    acc.push(os[i].dup());
    dup_objs_from(os, i + 1, acc)
}

fn dup_pairs_from(ps: &Vec<(Object, Object)>, i: usize, acc: Vec<(Object, Object)>) -> (r: Vec<(
    Object,
    Object,
)>)
    requires
        i <= ps@.len(),
    ensures
        r@.len() == acc@.len() + ps@.len() - i,
        forall|k: int| 0 <= k < acc@.len() ==> #[trigger] r@[k] == acc@[k],
        forall|k: int|
            acc@.len() <= k < r@.len() ==> (#[trigger] r@[k]).0@ == ps@[k - acc@.len() + i].0@
                && r@[k].1@ == ps@[k - acc@.len() + i].1@,
    decreases ps@, ps@.len() - i,
{
    if i >= ps.len() {
        return acc;
    }
    let mut acc = acc;
    let kv = (ps[i].0.dup(), ps[i].1.dup());
    acc.push(kv);
    dup_pairs_from(ps, i + 1, acc)
}

fn dup_idents(ps: &Vec<Ident>) -> (r: Vec<Ident>)
    ensures
        r@.map_values(|p: Ident| p@) == ps@.map_values(|p: Ident| p@),
{
    let mut r: Vec<Ident> = Vec::new();
    let mut i: usize = 0;
    while i < ps.len()
        invariant
            i <= ps@.len(),
            r@.len() == i,
            forall|k: int| 0 <= k < i ==> (#[trigger] r@[k])@ == ps@[k]@,
        decreases ps@.len() - i,
    {
        r.push(Ident(ps[i].0.clone()));
        i = i + 1;
    }
    proof {
        assert(r@.map_values(|p: Ident| p@) =~= ps@.map_values(|p: Ident| p@));
    }
    r
}

/// The display form of a value: what the REPL prints and what error
/// messages embed. Strings show quoted with the language's escapes; a
/// function shows its parameters and elides its body.
pub open spec fn obj_display(o: ObjectV) -> Seq<char>
    decreases o, 0int, 0int,
{
    match o {
        ObjectV::Int(i) => dec_int(i as int),
        ObjectV::String(s) => escape_str_spec(s),
        ObjectV::Bool(b) => if b {
            "true"@
        } else {
            "false"@
        },
        ObjectV::Array(els) => "["@ + display_objs(els, 0) + "]"@,
        ObjectV::Hash(ps) => "{"@ + display_pairs(ps, 0) + "}"@,
        ObjectV::Func(params, body, env) => "fn("@ + display_params(params, 0) + ") { ... }"@,
        ObjectV::Builtin(arity, k) => "[builtin function]"@,
        ObjectV::Null => "null"@,
        ObjectV::ReturnValue(b) => obj_display(*b),
        ObjectV::Error(m) => m,
        ObjectV::Exit(c) => "exit"@,
    }
}

pub open spec fn display_objs(els: Seq<ObjectV>, i: int) -> Seq<char>
    decreases els, els.len() - i, 1int when 0 <= i
{
    if i >= els.len() {
        Seq::empty()
    } else if i == 0 {
        obj_display(els[0]) + display_objs(els, 1)
    } else {
        ", "@ + obj_display(els[i]) + display_objs(els, i + 1)
    }
}

pub open spec fn display_pairs(ps: Seq<(ObjectV, ObjectV)>, i: int) -> Seq<char>
    decreases ps, ps.len() - i, 1int when 0 <= i
{
    if i >= ps.len() {
        Seq::empty()
    } else if i == 0 {
        obj_display(ps[0].0) + ": "@ + obj_display(ps[0].1) + display_pairs(ps, 1)
    } else {
        ", "@ + obj_display(ps[i].0) + ": "@ + obj_display(ps[i].1) + display_pairs(ps, i + 1)
    }
}

pub open spec fn display_params(params: Seq<Seq<char>>, i: int) -> Seq<char>
    decreases params.len() - i when 0 <= i
{
    if i >= params.len() {
        Seq::empty()
    } else if i == 0 {
        params[0] + display_params(params, 1)
    } else {
        ", "@ + params[i] + display_params(params, i + 1)
    }
}

impl Object {
    /// The display form of this value.
    pub fn render(&self) -> (r: String)
        ensures
            r@ == obj_display(self@),
        decreases self, 0int, 0int,
    {
        match self {
            Object::Int(i) => crate::strutil::int_to_string(*i),
            Object::String(s) => crate::lexer::unescape::escape_str(s.as_str()),
            Object::Bool(b) => {
                if *b {
                    String::from_str("true")
                } else {
                    String::from_str("false")
                }
            },
            Object::Array(els) => {
                let mut out = String::from_str("[");
                let items = render_objs(els, 0, String::new());
                out.append(items.as_str());
                out.append("]");
                out
            },
            Object::Hash(ps) => {
                let mut out = String::from_str("{");
                let items = render_pairs(ps, 0, String::new());
                out.append(items.as_str());
                out.append("}");
                out
            },
            Object::Func(params, body, env) => {
                let mut out = String::from_str("fn(");
                let items = render_params(params, 0, String::new());
                out.append(items.as_str());
                out.append(") { ... }");
                out
            },
            Object::Builtin(arity, k) => String::from_str("[builtin function]"),
            Object::Null => String::from_str("null"),
            Object::ReturnValue(b) => b.render(),
            Object::Error(m) => m.clone(),
            Object::Exit(c) => String::from_str("exit"),
        }
    }
}

fn render_objs(els: &Vec<Object>, i: usize, acc: String) -> (r: String)
    requires
        i <= els@.len(),
    ensures
        r@ == acc@ + display_objs(objs_view(els@), i as int),
    decreases els@, els@.len() - i, 1int,
{
    proof {
        lemma_objs_view_len(els@);
    }
    if i >= els.len() {
        proof {
            assert(acc@ + display_objs(objs_view(els@), i as int) =~= acc@);
        }
        return acc;
    }
    let mut acc = acc;
    if i > 0 {
        acc.append(", ");
    }
    let item = els[i].render();
    acc.append(item.as_str());
    proof {
        lemma_objs_view_index(els@, i as int);
    }
    render_objs(els, i + 1, acc)
}

fn render_pairs(ps: &Vec<(Object, Object)>, i: usize, acc: String) -> (r: String)
    requires
        i <= ps@.len(),
    ensures
        r@ == acc@ + display_pairs(obj_pairs_view(ps@), i as int),
    decreases ps@, ps@.len() - i, 1int,
{
    proof {
        lemma_obj_pairs_view_len(ps@);
    }
    if i >= ps.len() {
        proof {
            assert(acc@ + display_pairs(obj_pairs_view(ps@), i as int) =~= acc@);
        }
        return acc;
    }
    let mut acc = acc;
    if i > 0 {
        acc.append(", ");
    }
    let k = ps[i].0.render();
    acc.append(k.as_str());
    acc.append(": ");
    let v = ps[i].1.render();
    acc.append(v.as_str());
    proof {
        lemma_obj_pairs_view_index(ps@, i as int);
    }
    render_pairs(ps, i + 1, acc)
}

fn render_params(params: &Vec<Ident>, i: usize, acc: String) -> (r: String)
    requires
        i <= params@.len(),
    ensures
        r@ == acc@ + display_params(params@.map_values(|p: Ident| p@), i as int),
    decreases params@.len() - i,
{
    if i >= params.len() {
        proof {
            assert(acc@ + display_params(params@.map_values(|p: Ident| p@), i as int) =~= acc@);
        }
        return acc;
    }
    let mut acc = acc;
    if i > 0 {
        acc.append(", ");
    }
    acc.append(params[i].0.as_str());
    render_params(params, i + 1, acc)
}


} // verus!
