//! Laws of the scope model and of callable dispatch, stated and proved
//! once over the views that every contract of the crate uses.

use crate::env::{defining_frame, frame_ok, lemma_lookup_agree, lookup, wf_frames, SFrame};
use crate::error::SError;
use crate::state::{bind_params, sp_call_function, sp_exec_stmts, State};
use crate::value::{SFunction, SValue};
use vstd::prelude::*;

verus! {

/// Lexical shadowing: make a child frame of `f` and declare `n` in the
/// child (exactly what `child` followed by `define` produce). What `f`
/// sees for `n` is unchanged, while the child sees the new value.
pub proof fn lemma_shadowing(frames: Seq<SFrame>, f: int, n: Seq<char>, v: SValue)
    requires
        0 <= f < frames.len(),
    ensures
        ({
            let c = frames.len() as int;
            let after_child = frames.push(SFrame { bindings: Map::empty(), enclosing: Some(f) });
            let after_define = after_child.update(
                c,
                SFrame {
                    bindings: after_child[c].bindings.insert(n, v),
                    enclosing: after_child[c].enclosing,
                },
            );
            lookup(after_define, f, n) == lookup(frames, f, n) && lookup(after_define, c, n)
                == Some(v)
        }),
{
    let c = frames.len() as int;
    let after_child = frames.push(SFrame { bindings: Map::empty(), enclosing: Some(f) });
    let after_define = after_child.update(
        c,
        SFrame {
            bindings: after_child[c].bindings.insert(n, v),
            enclosing: after_child[c].enclosing,
        },
    );
    lemma_lookup_agree(frames, after_define, f, n);
    assert(after_define[c].bindings.contains_key(n));
}

/// Assignment reaches the defining frame: with `n` declared in `f` but
/// not in its child `c`, an assignment started from `c` lands in `f`'s
/// own storage, and both frames then observe the new value.
pub proof fn lemma_assignment_reaches_defining_frame(
    frames: Seq<SFrame>,
    f: int,
    c: int,
    n: Seq<char>,
    v: SValue,
)
    requires
        wf_frames(frames),
        0 <= f < frames.len(),
        0 <= c < frames.len(),
        frames[c].enclosing == Some(f),
        !frames[c].bindings.contains_key(n),
        frames[f].bindings.contains_key(n),
    ensures
        defining_frame(frames, c, n) == Some(f),
        ({
            let after = frames.update(
                f,
                SFrame { bindings: frames[f].bindings.insert(n, v), enclosing: frames[f].enclosing },
            );
            lookup(after, f, n) == Some(v) && lookup(after, c, n) == Some(v)
        }),
{
    assert(frame_ok(frames[c], c));
    assert(defining_frame(frames, f, n) == Some(f));
    let after = frames.update(
        f,
        SFrame { bindings: frames[f].bindings.insert(n, v), enclosing: frames[f].enclosing },
    );
    assert(after[f].bindings.contains_key(n));
    assert(defining_frame(after, f, n) == Some(f));
    assert(after[c] == frames[c]);
    assert(frame_ok(after[c], c));
    assert(defining_frame(after, c, n) == Some(f));
}

/// Closures observe shared state: a call with the right argument count
/// runs the body in one fresh frame whose enclosing frame is the
/// function's captured frame — the caller's own frame plays no part, so
/// scoping is lexical, and every invocation of a function value reads
/// and writes the very frame it captured. Together with
/// `lemma_assignment_reaches_defining_frame`, an assignment made by one
/// call is what a later call of the same value observes.
pub proof fn lemma_call_runs_in_captured_scope(
    st: State,
    f: SFunction,
    args: Seq<SValue>,
    log: Seq<i64>,
    fuel: nat,
)
    requires
        fuel > 0,
        args.len() == f.params.len(),
    ensures
        ({
            let c = st.frames.len() as int;
            let entered = State {
                frames: st.frames.push(
                    SFrame { bindings: bind_params(f.params, args), enclosing: Some(f.closure) },
                ),
                ..st
            };
            sp_call_function(st, f, args, log, fuel).0 == sp_exec_stmts(
                entered,
                c,
                f.body,
                log,
                (fuel - 1) as nat,
            ).0
        }),
{
}

/// Arity enforcement: a call whose argument count disagrees with the
/// parameter count fails with exactly the arity error and leaves the
/// state untouched; no part of the body runs.
pub proof fn lemma_arity_mismatch_stops_call(
    st: State,
    f: SFunction,
    args: Seq<SValue>,
    log: Seq<i64>,
    fuel: nat,
)
    requires
        fuel > 0,
        args.len() != f.params.len(),
    ensures
        sp_call_function(st, f, args, log, fuel) == (
            st,
            Err::<Option<SValue>, SError>(
                SError::ArityMismatch { expected: f.params.len(), got: args.len() },
            ),
        ),
{
}

/// Idempotence of lookup: two reads of the same unmodified frame chain
/// observe the identical value. `Env::get` takes `&self` and promises
/// exactly `lookup`, so repeated calls return equal values with no side
/// effects.
pub proof fn lemma_lookup_idempotent(
    frames: Seq<SFrame>,
    i: int,
    n: Seq<char>,
    r1: Option<SValue>,
    r2: Option<SValue>,
)
    requires
        r1 == lookup(frames, i, n),
        r2 == lookup(frames, i, n),
    ensures
        r1 == r2,
{
}

} // verus!
