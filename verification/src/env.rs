//! Scope frames: chained binding tables with shared, mutable storage.
//!
//! Frames live in an arena (`Env`); a frame names its enclosing frame by
//! index, so any number of closures and active calls can refer to the same
//! frame and observe each other's assignments. A frame's index never
//! changes and frames are never removed, which is what keeps every
//! captured reference valid for the whole run.
//!
//! The view of a frame is a map from names to value views; bindings are
//! appended, and the newest entry for a name wins, so both `define` and
//! `assign` are map insertions at the view level.

use crate::error::{Error, SError};
use crate::value::{rc_dup, SValue, Value};
use std::rc::Rc;
use vstd::prelude::*;

verus! {

/// One lexical frame: its own bindings and the index of the enclosing
/// frame, if any.
pub struct Frame {
    pub bindings: Vec<(String, Rc<Value>)>,
    pub enclosing: Option<usize>,
}

/// View of a frame.
pub struct SFrame {
    pub bindings: Map<Seq<char>, SValue>,
    pub enclosing: Option<int>,
}

/// The binding list read as a map; a later entry for the same name
/// shadows an earlier one.
pub open spec fn assoc_map(bs: Seq<(String, Rc<Value>)>) -> Map<Seq<char>, SValue>
    decreases bs.len(),
{
    if bs.len() == 0 {
        Map::empty()
    } else {
        assoc_map(bs.drop_last()).insert(bs.last().0@, bs.last().1.sview())
    }
}

impl Frame {
    pub open spec fn sview(&self) -> SFrame {
        SFrame {
            bindings: assoc_map(self.bindings@),
            enclosing: match self.enclosing {
                Some(j) => Some(j as int),
                None => None,
            },
        }
    }
}

/// The enclosing link of frame `i` points strictly downward.
pub open spec fn frame_ok(f: SFrame, i: int) -> bool {
    match f.enclosing {
        Some(p) => 0 <= p < i,
        None => true,
    }
}

/// Every frame's enclosing link points strictly downward, so every chain
/// of `enclosing` links reaches a root.
pub open spec fn wf_frames(frames: Seq<SFrame>) -> bool {
    forall|i: int| 0 <= i < frames.len() ==> #[trigger] frame_ok(frames[i], i)
}

/// The nearest frame, starting at `i` and walking outward, that binds
/// `n`; `None` when the chain is exhausted.
pub open spec fn defining_frame(frames: Seq<SFrame>, i: int, n: Seq<char>) -> Option<int>
    decreases i,
{
    if 0 <= i < frames.len() {
        if frames[i].bindings.contains_key(n) {
            Some(i)
        } else {
            match frames[i].enclosing {
                Some(j) => if 0 <= j < i {
                    defining_frame(frames, j, n)
                } else {
                    None
                },
                None => None,
            }
        }
    } else {
        None
    }
}

/// The value of `n` seen from frame `i`: what the defining frame binds.
pub open spec fn lookup(frames: Seq<SFrame>, i: int, n: Seq<char>) -> Option<SValue> {
    match defining_frame(frames, i, n) {
        Some(d) => Some(frames[d].bindings[n]),
        None => None,
    }
}

/// The defining frame lies on the chain below `i` and really binds `n`.
pub proof fn lemma_defining_frame_props(frames: Seq<SFrame>, i: int, n: Seq<char>)
    ensures
        match defining_frame(frames, i, n) {
            Some(d) => 0 <= d <= i && d < frames.len() && frames[d].bindings.contains_key(n),
            None => true,
        },
    decreases i,
{
    if 0 <= i < frames.len() && !frames[i].bindings.contains_key(n) {
        match frames[i].enclosing {
            Some(j) => {
                if 0 <= j < i {
                    lemma_defining_frame_props(frames, j, n);
                }
            },
            None => {},
        }
    }
}

/// Lookup from `i` only reads frames reachable below `i`: two arenas that
/// agree on every frame of the shorter one agree on every lookup started
/// inside it. In particular, frames added later never change what an
/// existing frame sees.
pub proof fn lemma_lookup_agree(f1: Seq<SFrame>, f2: Seq<SFrame>, i: int, n: Seq<char>)
    requires
        f1.len() <= f2.len(),
        forall|k: int| 0 <= k < f1.len() ==> f1[k] == f2[k],
        0 <= i < f1.len(),
    ensures
        defining_frame(f2, i, n) == defining_frame(f1, i, n),
        lookup(f2, i, n) == lookup(f1, i, n),
    decreases i,
{
    assert(f2[i] == f1[i]);
    if !f1[i].bindings.contains_key(n) {
        match f1[i].enclosing {
            Some(j) => {
                if 0 <= j < i {
                    lemma_lookup_agree(f1, f2, j, n);
                }
            },
            None => {},
        }
    }
    lemma_defining_frame_props(f1, i, n);
}

/// The arena of frames.
pub struct Env {
    pub frames: Vec<Frame>,
}

impl View for Env {
    type V = Seq<SFrame>;

    open spec fn view(&self) -> Seq<SFrame> {
        self.frames@.map_values(|f: Frame| f.sview())
    }
}

/// Search the binding list of one frame, newest entry first.
fn frame_get_upto(bs: &Vec<(String, Rc<Value>)>, k: usize, name: &String) -> (r: Option<
    Rc<Value>,
>)
    requires
        k <= bs@.len(),
    ensures
        match r {
            Some(v) => assoc_map(bs@.take(k as int)).contains_key(name@) && v.sview()
                == assoc_map(bs@.take(k as int))[name@],
            None => !assoc_map(bs@.take(k as int)).contains_key(name@),
        },
    decreases k,
{
    if k == 0 {
        None
    } else {
        proof {
            assert(bs@.take(k as int).drop_last() =~= bs@.take(k as int - 1));
            assert(bs@.take(k as int).last() == bs@[k as int - 1]);
        }
        let e = &bs[k - 1];
        if e.0 == *name {
            Some(rc_dup(&e.1))
        } else {
            frame_get_upto(bs, k - 1, name)
        }
    }
}

impl Env {
    /// Append a root frame (no enclosing frame) and return its index.
    pub fn root(&mut self) -> (c: usize)
        ensures
            final(self)@ == old(self)@.push(
                SFrame { bindings: Map::empty(), enclosing: None },
            ),
            c == old(self)@.len(),
    {
        let c = self.frames.len();
        self.frames.push(Frame { bindings: Vec::new(), enclosing: None });
        proof {
            assert(self@ =~= old(self)@.push(SFrame { bindings: Map::empty(), enclosing: None }));
        }
        c
    }

    /// Produce a new frame whose enclosing frame is `parent`; used on
    /// entering a block or a call. The parent is shared, never copied.
    pub fn child(&mut self, parent: usize) -> (c: usize)
        requires
            parent < old(self)@.len(),
        ensures
            final(self)@ == old(self)@.push(
                SFrame { bindings: Map::empty(), enclosing: Some(parent as int) },
            ),
            c == old(self)@.len(),
    {
        let c = self.frames.len();
        self.frames.push(Frame { bindings: Vec::new(), enclosing: Some(parent) });
        proof {
            assert(self@ =~= old(self)@.push(
                SFrame { bindings: Map::empty(), enclosing: Some(parent as int) },
            ));
        }
        c
    }

    /// Insert or overwrite `name` in frame `i` itself, shadowing any outer
    /// binding of the same name. Always succeeds.
    pub fn define(&mut self, i: usize, name: &String, v: Rc<Value>)
        requires
            i < old(self)@.len(),
        ensures
            final(self)@ == old(self)@.update(
                i as int,
                SFrame {
                    bindings: old(self)@[i as int].bindings.insert(name@, v.sview()),
                    enclosing: old(self)@[i as int].enclosing,
                },
            ),
    {
        let ghost pre = self@;
        let fr = &mut self.frames[i];
        let ghost old_b = fr.bindings@;
        fr.bindings.push((name.clone(), v));
        proof {
            assert(fr.bindings@.drop_last() =~= old_b);
            assert(self@ =~= pre.update(
                i as int,
                SFrame {
                    bindings: pre[i as int].bindings.insert(name@, v.sview()),
                    enclosing: pre[i as int].enclosing,
                },
            ));
        }
    }

    /// Walk from frame `i` outward and return the value bound nearest;
    /// an exhausted chain is an `UndefinedVariable` error.
    pub fn get(&self, i: usize, name: &String) -> (r: Result<Rc<Value>, Error>)
        requires
            wf_frames(self@),
            i < self@.len(),
        ensures
            match r {
                Ok(v) => lookup(self@, i as int, name@) == Some(v.sview()),
                Err(e) => lookup(self@, i as int, name@) is None && e.sview()
                    == SError::UndefinedVariable(name@),
            },
        decreases i,
{
        let fr = &self.frames[i];
        proof {
            assert(self@[i as int] == fr.sview());
            assert(fr.bindings@.take(fr.bindings@.len() as int) =~= fr.bindings@);
        }
        match frame_get_upto(&fr.bindings, fr.bindings.len(), name) {
            Some(v) => {
                proof {
                    lemma_defining_frame_props(self@, i as int, name@);
                }
                Ok(v)
            },
            None => {
                match fr.enclosing {
                    Some(j) => {
                        proof {
                            assert(frame_ok(self@[i as int], i as int));
                        }
                        self.get(j, name)
                    },
                    None => Err(Error::UndefinedVariable(name.clone())),
                }
            },
        }
    }

    /// Overwrite `name` at whatever frame on the chain from `i` defines
    /// it; assigning to an undeclared name is an error and changes
    /// nothing.
    pub fn assign(&mut self, i: usize, name: &String, v: Rc<Value>) -> (r: Result<(), Error>)
        requires
            wf_frames(old(self)@),
            i < old(self)@.len(),
        ensures
            match r {
                Ok(_) => match defining_frame(old(self)@, i as int, name@) {
                    Some(d) => final(self)@ == old(self)@.update(
                        d,
                        SFrame {
                            bindings: old(self)@[d].bindings.insert(name@, v.sview()),
                            enclosing: old(self)@[d].enclosing,
                        },
                    ),
                    None => false,
                },
                Err(e) => final(self)@ == old(self)@ && defining_frame(
                    old(self)@,
                    i as int,
                    name@,
                ) is None && e.sview() == SError::UndefinedVariable(name@),
            },
        decreases i,
{
        let fr = &self.frames[i];
        proof {
            assert(self@[i as int] == fr.sview());
            assert(fr.bindings@.take(fr.bindings@.len() as int) =~= fr.bindings@);
        }
        let found = frame_get_upto(&fr.bindings, fr.bindings.len(), name);
        match found {
            Some(_) => {
                let ghost pre = self@;
                let fr = &mut self.frames[i];
                let ghost old_b = fr.bindings@;
                fr.bindings.push((name.clone(), v));
                proof {
                    assert(fr.bindings@.drop_last() =~= old_b);
                    assert(self@ =~= pre.update(
                        i as int,
                        SFrame {
                            bindings: pre[i as int].bindings.insert(name@, v.sview()),
                            enclosing: pre[i as int].enclosing,
                        },
                    ));
                }
                Ok(())
            },
            None => {
                match fr.enclosing {
                    Some(j) => {
                        proof {
                            assert(frame_ok(self@[i as int], i as int));
                        }
                        self.assign(j, name, v)
                    },
                    None => Err(Error::UndefinedVariable(name.clone())),
                }
            },
        }
    }
}

} // verus!
