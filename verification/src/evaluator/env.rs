//! Lexical environments: an arena of frames. A frame maps names to values
//! and may point at an enclosing frame; function values keep the index of
//! the frame they captured, so frames are shared and never removed, and a
//! binding added to a frame later stays visible through every reference to
//! it.

use vstd::prelude::*;
use super::object::{Object, ObjectV};

verus! {

/// One scope: its bindings, newest last, and the enclosing frame.
pub struct Frame {
    pub store: Vec<(String, Object)>,
    pub outer: Option<usize>,
}

/// The mathematical image of a frame.
#[verifier::ext_equal]
pub struct FrameV {
    pub store: Seq<(Seq<char>, ObjectV)>,
    pub outer: Option<int>,
}

/// The image of a binding list.
pub open spec fn store_view(s: Seq<(String, Object)>) -> Seq<(Seq<char>, ObjectV)> {
    Seq::new(s.len(), |i: int| (s[i].0@, s[i].1@))
}

impl View for Frame {
    type V = FrameV;

    open spec fn view(&self) -> FrameV {
        FrameV {
            store: store_view(self.store@),
            outer: match self.outer {
                Some(o) => Some(o as int),
                None => None,
            },
        }
    }
}

/// The newest binding of `name`, if any.
pub open spec fn lookup_store(st: Seq<(Seq<char>, ObjectV)>, name: Seq<char>) -> Option<ObjectV>
    decreases st.len(),
{
    if st.len() == 0 {
        None
    } else if st.last().0 == name {
        Some(st.last().1)
    } else {
        lookup_store(st.subrange(0, st.len() - 1), name)
    }
}

/// Walking the chain outward from frame `idx` until `name` is found.
pub open spec fn env_get_spec(env: Seq<FrameV>, idx: int, name: Seq<char>) -> Option<ObjectV>
    decreases idx when 0 <= idx < env.len()
{
    match lookup_store(env[idx].store, name) {
        Some(v) => Some(v),
        None => match env[idx].outer {
            Some(o) => if 0 <= o < idx {
                env_get_spec(env, o, name)
            } else {
                None
            },
            None => None,
        },
    }
}

/// The arena of frames. Frames only point at older frames.
pub struct Env {
    frames: Vec<Frame>,
}

impl Env {
    /// The frames, seen mathematically.
    pub closed spec fn frames_v(&self) -> Seq<FrameV> {
        Seq::new(self.frames@.len(), |i: int| self.frames@[i]@)
    }

    /// Every frame's enclosing pointer goes strictly backwards.
    pub closed spec fn wf(&self) -> bool {
        &&& self.frames.len() >= 1
        &&& forall|i: int|
            0 <= i < self.frames@.len() ==> (match (#[trigger] self.frames@[i]).outer {
                Some(o) => o < i,
                None => true,
            })
    }

    /// A well-formed arena always has its root frame.
    pub proof fn lemma_wf_len(&self)
        requires
            self.wf(),
        ensures
            self.frames_v().len() >= 1,
    {
    }

    /// How many frames exist.
    pub fn len(&self) -> (n: usize)
        ensures
            n == self.frames_v().len(),
    {
        self.frames.len()
    }

    /// A fresh environment: one root frame with no bindings.
    pub fn new() -> (e: Env)
        ensures
            e.wf(),
            e.frames_v().len() == 1,
            e.frames_v()[0].store == Seq::<(Seq<char>, ObjectV)>::empty(),
            e.frames_v()[0].outer is None,
    {
        let mut frames: Vec<Frame> = Vec::new();
        frames.push(Frame { store: Vec::new(), outer: None });
        let e = Env { frames };
        proof {
            assert(e.frames_v()[0].store =~= Seq::<(Seq<char>, ObjectV)>::empty());
        }
        e
    }

    /// An environment whose root frame holds `store`.
    pub fn from(store: Vec<(String, Object)>) -> (e: Env)
        ensures
            e.wf(),
            e.frames_v().len() == 1,
            e.frames_v()[0].store == store_view(store@),
            e.frames_v()[0].outer is None,
    {
        let mut frames: Vec<Frame> = Vec::new();
        frames.push(Frame { store, outer: None });
        Env { frames }
    }

    /// A new empty frame enclosed by `outer`; yields its index.
    pub fn new_with_outer(&mut self, outer: usize) -> (id: usize)
        requires
            old(self).wf(),
            outer < old(self).frames_v().len(),
        ensures
            final(self).wf(),
            id == old(self).frames_v().len(),
            final(self).frames_v().len() == old(self).frames_v().len() + 1,
            forall|i: int|
                0 <= i < old(self).frames_v().len() ==> final(self).frames_v()[i] == old(
                    self,
                ).frames_v()[i],
            final(self).frames_v()[id as int].store == Seq::<(Seq<char>, ObjectV)>::empty(),
            final(self).frames_v()[id as int].outer == Some(outer as int),
    {
        let id = self.frames.len();
        self.frames.push(Frame { store: Vec::new(), outer: Some(outer) });
        proof {
            assert(final(self).frames_v()[id as int].store =~= Seq::<(Seq<char>, ObjectV)>::empty());
            assert forall|i: int|
                0 <= i < old(self).frames_v().len()
                implies final(self).frames_v()[i] == old(self).frames_v()[i] by {
                assert(final(self).frames@[i] == old(self).frames@[i]);
            }
        }
        id
    }

    /// The value bound to `name`, looked up outward from `frame`.
    pub fn get(&self, frame: usize, name: &String) -> (r: Option<Object>)
        requires
            self.wf(),
            frame < self.frames_v().len(),
        ensures
            match r {
                Some(o) => env_get_spec(self.frames_v(), frame as int, name@) == Some(o@),
                None => env_get_spec(self.frames_v(), frame as int, name@) is None,
            },
    {
        let mut i = frame;
        loop
            invariant
                self.wf(),
                i < self.frames_v().len(),
                env_get_spec(self.frames_v(), frame as int, name@) == env_get_spec(
                    self.frames_v(),
                    i as int,
                    name@,
                ),
            decreases i,
        {
            match store_get(&self.frames[i].store, name) {
                Some(o) => {
                    return Some(o);
                },
                None => {
                    proof {
                        assert(lookup_store(self.frames_v()[i as int].store, name@) is None);
                    }
                    match self.frames[i].outer {
                        Some(o) => {
                            i = o;
                        },
                        None => {
                            return None;
                        },
                    }
                },
            }
        }
    }

    /// Binds `name` to `value` in exactly the frame `frame`.
    pub fn set(&mut self, frame: usize, name: String, value: &Object)
        requires
            old(self).wf(),
            frame < old(self).frames_v().len(),
        ensures
            final(self).wf(),
            final(self).frames_v().len() == old(self).frames_v().len(),
            forall|i: int|
                0 <= i < old(self).frames_v().len() && i != frame as int
                    ==> final(self).frames_v()[i] == old(self).frames_v()[i],
            final(self).frames_v()[frame as int].store == old(self).frames_v()[
                frame as int
            ].store.push((name@, value@)),
            final(self).frames_v()[frame as int].outer == old(self).frames_v()[
                frame as int
            ].outer,
    {
        let ghost before = self.frames@[frame as int].store@;
        let copy = value.dup();
        let f = &mut self.frames[frame];
        f.store.push((name, copy));
        proof {
            assert(final(self).frames_v()[frame as int].store =~= old(self).frames_v()[
                frame as int
            ].store.push((name@, value@)));
            assert forall|i: int|
                0 <= i < old(self).frames_v().len() && i != frame as int
                implies final(self).frames_v()[i] == old(self).frames_v()[i] by {
                assert(final(self).frames@[i] == old(self).frames@[i]);
            }
        }
    }
}

/// The newest binding of `name` in one frame's list.
fn store_get(store: &Vec<(String, Object)>, name: &String) -> (r: Option<Object>)
    ensures
        match r {
            Some(o) => lookup_store(store_view(store@), name@) == Some(o@),
            None => lookup_store(store_view(store@), name@) is None,
        },
{
    let mut j = store.len();
    proof {
        assert(store_view(store@).subrange(0, store@.len() as int) =~= store_view(store@));
    }
    while j > 0
        invariant
            j <= store@.len(),
            lookup_store(store_view(store@), name@) == lookup_store(
                store_view(store@).subrange(0, j as int),
                name@,
            ),
        decreases j,
    {
        j = j - 1;
        if store[j].0 == *name {
            proof {
                let sv = store_view(store@).subrange(0, j as int + 1);
                assert(sv.last() == (store@[j as int].0@, store@[j as int].1@));
            }
            return Some(store[j].1.dup());
        }
        proof {
            let sv = store_view(store@).subrange(0, j as int + 1);
            assert(sv.last().0 != name@);
            assert(sv.subrange(0, sv.len() - 1) =~= store_view(store@).subrange(0, j as int));
        }
    }
    proof {
        assert(store_view(store@).subrange(0, 0) =~= Seq::<(Seq<char>, ObjectV)>::empty());
    }
    None
}

} // verus!
