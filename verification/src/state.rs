//! The meaning of programs: a mathematical interpreter over frame views.
//!
//! Every executable evaluation function of the crate is proved equal to
//! the spec functions here. The one outside input, the wall clock, is
//! handled by threading the log of clock readings: `State::ticks` is the
//! log written so far, and the spec functions take the complete log of a
//! run as the ambient argument `log`, reading entry `ticks.len()` at each
//! clock call. Given the readings that actually occurred, the whole run
//! is pinned down.
//!
//! Fuel bounds nesting and call depth: every recursive step costs one
//! unit, and an exhausted budget is the `StackOverflow` error.

use crate::ast::{BinOp, Expr, Lit, Stmt, UnOp};
use crate::env::{defining_frame, frame_ok, lemma_defining_frame_props, lookup, wf_frames, SFrame};
use crate::error::{OpId, SError};
use crate::render::render_sval;
use crate::value::{sval_wf, truthy, SCallee, SFunction, SValue};
use vstd::prelude::*;

verus! {

/// The observable state of a run: the frame arena, the lines printed so
/// far, and the clock readings taken so far.
#[verifier::ext_equal]
pub struct State {
    pub frames: Seq<SFrame>,
    pub out: Seq<Seq<char>>,
    pub ticks: Seq<i64>,
}

/// Outcome of one statement: normal completion, or an in-flight `return`
/// carrying its value up to the enclosing call.
pub enum SOutcome {
    Normal,
    Return(SValue),
}

/// Every value stored in any frame keeps its captured frame inside the
/// arena.
pub open spec fn wf_vals(frames: Seq<SFrame>) -> bool {
    forall|i: int, n: Seq<char>|
        0 <= i < frames.len() && #[trigger] frames[i].bindings.contains_key(n) ==> sval_wf(
            frames[i].bindings[n],
            frames.len() as int,
        )
}

/// A well-formed state: enclosing links point strictly downward and
/// stored values point into the arena.
pub open spec fn wf_state(st: State) -> bool {
    wf_frames(st.frames) && wf_vals(st.frames)
}

/// Appending a frame whose own values point into the grown arena keeps
/// the arena well formed.
pub proof fn lemma_wf_push(frames: Seq<SFrame>, fr: SFrame)
    requires
        wf_frames(frames),
        wf_vals(frames),
        frame_ok(fr, frames.len() as int),
        forall|n: Seq<char>| #[trigger]
            fr.bindings.contains_key(n) ==> sval_wf(fr.bindings[n], frames.len() as int + 1),
    ensures
        wf_frames(frames.push(fr)),
        wf_vals(frames.push(fr)),
{
    let fs = frames.push(fr);
    assert forall|i: int| 0 <= i < fs.len() implies #[trigger] frame_ok(fs[i], i) by {
        if i < frames.len() {
            assert(fs[i] == frames[i]);
            assert(frame_ok(frames[i], i));
        } else {
            assert(fs[i] == fr);
        }
    }
    assert forall|i: int, n: Seq<char>|
        0 <= i < fs.len() && #[trigger] fs[i].bindings.contains_key(n) implies sval_wf(
        fs[i].bindings[n],
        fs.len() as int,
    ) by {
        if i < frames.len() {
            assert(fs[i] == frames[i]);
            assert(frames[i].bindings.contains_key(n));
        } else {
            assert(fs[i] == fr);
        }
    }
}

/// Inserting a value that points into the arena keeps the arena well
/// formed.
pub proof fn lemma_wf_insert(frames: Seq<SFrame>, d: int, n: Seq<char>, v: SValue)
    requires
        wf_frames(frames),
        wf_vals(frames),
        0 <= d < frames.len(),
        sval_wf(v, frames.len() as int),
    ensures
        wf_frames(
            frames.update(
                d,
                SFrame { bindings: frames[d].bindings.insert(n, v), enclosing: frames[d].enclosing },
            ),
        ),
        wf_vals(
            frames.update(
                d,
                SFrame { bindings: frames[d].bindings.insert(n, v), enclosing: frames[d].enclosing },
            ),
        ),
{
    let fs = frames.update(
        d,
        SFrame { bindings: frames[d].bindings.insert(n, v), enclosing: frames[d].enclosing },
    );
    assert forall|i: int| 0 <= i < fs.len() implies #[trigger] frame_ok(fs[i], i) by {
        if i != d {
            assert(fs[i] == frames[i]);
        }
        assert(frame_ok(frames[i], i));
    }
    assert forall|i: int, m: Seq<char>|
        0 <= i < fs.len() && #[trigger] fs[i].bindings.contains_key(m) implies sval_wf(
        fs[i].bindings[m],
        fs.len() as int,
    ) by {
        if i == d {
            if m != n {
                assert(frames[i].bindings.contains_key(m));
            }
        } else {
            assert(fs[i] == frames[i]);
            assert(frames[i].bindings.contains_key(m));
        }
    }
}

/// A log is a prefix of itself.
pub broadcast proof fn lemma_prefix_refl(s: Seq<i64>)
    ensures
        #[trigger] s.is_prefix_of(s),
{
    assert(s.subrange(0, s.len() as int) =~= s);
}

/// Prefixes chain.
pub broadcast proof fn lemma_prefix_trans(a: Seq<i64>, b: Seq<i64>, c: Seq<i64>)
    requires
        #[trigger] a.is_prefix_of(b),
        #[trigger] b.is_prefix_of(c),
    ensures
        a.is_prefix_of(c),
{
    assert(a =~= c.subrange(0, a.len() as int));
}

/// A value found by lookup points into the arena.
pub proof fn lemma_lookup_wf(frames: Seq<SFrame>, i: int, n: Seq<char>)
    requires
        wf_vals(frames),
    ensures
        match lookup(frames, i, n) {
            Some(v) => sval_wf(v, frames.len() as int),
            None => true,
        },
{
    lemma_defining_frame_props(frames, i, n);
}

/// The literal's value.
pub open spec fn lit_val(l: Lit) -> SValue {
    match l {
        Lit::Nil => SValue::Nil,
        Lit::Bool(b) => SValue::Bool(b),
        Lit::Num(n) => SValue::Num(n),
        Lit::Str(s) => SValue::Str(s@),
    }
}

/// The log entry at position `k`; positions past the log read as zero,
/// which no run that is related to its own log ever does.
pub open spec fn tick_at(log: Seq<i64>, k: int) -> i64 {
    if 0 <= k < log.len() {
        log[k]
    } else {
        0
    }
}

/// Equality as the language's `==` sees it: structural on nil, booleans,
/// numbers and strings; a callable compares unequal to everything,
/// including itself.
pub open spec fn sval_eq(l: SValue, r: SValue) -> bool {
    match (l, r) {
        (SValue::Nil, SValue::Nil) => true,
        (SValue::Bool(a), SValue::Bool(b)) => a == b,
        (SValue::Num(a), SValue::Num(b)) => a == b,
        (SValue::Str(a), SValue::Str(b)) => a == b,
        _ => false,
    }
}

pub open spec fn mismatch2(op: BinOp, l: SValue, r: SValue) -> SError {
    SError::TypeMismatch { op: OpId::Bin(op), operands: seq![l, r] }
}

/// Binary operators: numbers wrap at the i64 boundary, `+` also
/// concatenates strings, comparisons order numbers, and division by zero
/// (or the one overflowing quotient) is a mismatch of the operands.
pub open spec fn sp_binop(op: BinOp, l: SValue, r: SValue) -> Result<SValue, SError> {
    match op {
        BinOp::Add => match (l, r) {
            (SValue::Num(a), SValue::Num(b)) => Ok(SValue::Num(a.wrapping_add(b))),
            (SValue::Str(a), SValue::Str(b)) => Ok(SValue::Str(a + b)),
            _ => Err(mismatch2(op, l, r)),
        },
        BinOp::Sub => match (l, r) {
            (SValue::Num(a), SValue::Num(b)) => Ok(SValue::Num(a.wrapping_sub(b))),
            _ => Err(mismatch2(op, l, r)),
        },
        BinOp::Mul => match (l, r) {
            (SValue::Num(a), SValue::Num(b)) => Ok(SValue::Num(a.wrapping_mul(b))),
            _ => Err(mismatch2(op, l, r)),
        },
        BinOp::Div => match (l, r) {
            (SValue::Num(a), SValue::Num(b)) => match a.checked_div(b) {
                Some(q) => Ok(SValue::Num(q)),
                None => Err(mismatch2(op, l, r)),
            },
            _ => Err(mismatch2(op, l, r)),
        },
        BinOp::Eq => Ok(SValue::Bool(sval_eq(l, r))),
        BinOp::Ne => Ok(SValue::Bool(!sval_eq(l, r))),
        BinOp::Lt => match (l, r) {
            (SValue::Num(a), SValue::Num(b)) => Ok(SValue::Bool(a < b)),
            _ => Err(mismatch2(op, l, r)),
        },
        BinOp::Le => match (l, r) {
            (SValue::Num(a), SValue::Num(b)) => Ok(SValue::Bool(a <= b)),
            _ => Err(mismatch2(op, l, r)),
        },
        BinOp::Gt => match (l, r) {
            (SValue::Num(a), SValue::Num(b)) => Ok(SValue::Bool(a > b)),
            _ => Err(mismatch2(op, l, r)),
        },
        BinOp::Ge => match (l, r) {
            (SValue::Num(a), SValue::Num(b)) => Ok(SValue::Bool(a >= b)),
            _ => Err(mismatch2(op, l, r)),
        },
    }
}

/// Unary operators: negation of a number (wrapping at the boundary) and
/// truthiness-negation of any value.
pub open spec fn sp_unop(op: UnOp, v: SValue) -> Result<SValue, SError> {
    match op {
        UnOp::Neg => match v {
            SValue::Num(a) => Ok(SValue::Num((0 as i64).wrapping_sub(a))),
            _ => Err(SError::TypeMismatch { op: OpId::Un(op), operands: seq![v] }),
        },
        UnOp::Not => Ok(SValue::Bool(!truthy(v))),
    }
}

/// Insert into frame `i` itself: the effect of a declaration.
pub open spec fn define_in(st: State, i: int, n: Seq<char>, v: SValue) -> State {
    State {
        frames: st.frames.update(
            i,
            SFrame {
                bindings: st.frames[i].bindings.insert(n, v),
                enclosing: st.frames[i].enclosing,
            },
        ),
        ..st
    }
}

/// The call frame's bindings: each parameter bound to its argument, a
/// repeated name keeping the rightmost argument.
pub open spec fn bind_params(params: Seq<Seq<char>>, args: Seq<SValue>) -> Map<Seq<char>, SValue>
    decreases params.len(),
{
    if params.len() == 0 || args.len() == 0 {
        Map::empty()
    } else {
        bind_params(params.drop_last(), args.drop_last()).insert(params.last(), args.last())
    }
}

/// The native clock: arity 0; on success it appends the run's next clock
/// reading to the log and returns it as a number. It never touches the
/// frames or the output.
pub open spec fn sp_call_clock(st: State, got: nat, log: Seq<i64>) -> (State, Result<
    SValue,
    SError,
>) {
    if got != 0 {
        (st, Err(SError::ArityMismatch { expected: 0, got }))
    } else {
        let t = tick_at(log, st.ticks.len() as int);
        (State { ticks: st.ticks.push(t), ..st }, Ok(SValue::Num(t)))
    }
}

/// Evaluate an expression to a value.
pub open spec fn sp_eval_expr(st: State, cur: int, e: Expr, log: Seq<i64>, fuel: nat) -> (State,
    Result<SValue, SError>)
    decreases fuel, 0int,
{
    if fuel == 0 {
        (st, Err(SError::StackOverflow))
    } else {
        let f1 = (fuel - 1) as nat;
        match e {
            Expr::Literal(l) => (st, Ok(lit_val(l))),
            Expr::Variable(x) => match lookup(st.frames, cur, x@) {
                Some(v) => (st, Ok(v)),
                None => (st, Err(SError::UndefinedVariable(x@))),
            },
            Expr::Grouping(inner) => sp_eval_expr(st, cur, *inner, log, f1),
            Expr::Unary(op, inner) => {
                let (st1, r) = sp_eval_expr(st, cur, *inner, log, f1);
                match r {
                    Ok(v) => (st1, sp_unop(op, v)),
                    Err(er) => (st1, Err(er)),
                }
            },
            Expr::Binary(op, le, re) => {
                let (st1, r1) = sp_eval_expr(st, cur, *le, log, f1);
                match r1 {
                    Ok(lv) => {
                        let (st2, r2) = sp_eval_expr(st1, cur, *re, log, f1);
                        match r2 {
                            Ok(rv) => (st2, sp_binop(op, lv, rv)),
                            Err(er) => (st2, Err(er)),
                        }
                    },
                    Err(er) => (st1, Err(er)),
                }
            },
            Expr::Assign(x, rhs) => {
                let (st1, r) = sp_eval_expr(st, cur, *rhs, log, f1);
                match r {
                    Ok(v) => match defining_frame(st1.frames, cur, x@) {
                        Some(d) => (
                            State {
                                frames: st1.frames.update(
                                    d,
                                    SFrame {
                                        bindings: st1.frames[d].bindings.insert(x@, v),
                                        enclosing: st1.frames[d].enclosing,
                                    },
                                ),
                                ..st1
                            },
                            Ok(v),
                        ),
                        None => (st1, Err(SError::UndefinedVariable(x@))),
                    },
                    Err(er) => (st1, Err(er)),
                }
            },
            Expr::Call(callee, args) => {
                let (st1, r1) = sp_eval_expr(st, cur, *callee, log, f1);
                match r1 {
                    Ok(cv) => {
                        let (st2, r2) = sp_eval_args(st1, cur, args@, log, f1);
                        match r2 {
                            Ok(vs) => match cv {
                                SValue::Callable(SCallee::User(sf)) => {
                                    let (st3, r3) = sp_call_function(st2, sf, vs, log, f1);
                                    match r3 {
                                        Ok(Some(v)) => (st3, Ok(v)),
                                        Ok(None) => (st3, Ok(SValue::Nil)),
                                        Err(er) => (st3, Err(er)),
                                    }
                                },
                                SValue::Callable(SCallee::Native) => sp_call_clock(
                                    st2,
                                    vs.len(),
                                    log,
                                ),
                                _ => (st2, Err(SError::NotCallable(cv))),
                            },
                            Err(er) => (st2, Err(er)),
                        }
                    },
                    Err(er) => (st1, Err(er)),
                }
            },
        }
    }
}

/// Evaluate an argument list, left to right.
pub open spec fn sp_eval_args(st: State, cur: int, args: Seq<Expr>, log: Seq<i64>, fuel: nat) -> (
    State,
    Result<Seq<SValue>, SError>,
)
    decreases fuel, args.len(),
{
    if args.len() == 0 {
        (st, Ok(Seq::empty()))
    } else if fuel == 0 {
        (st, Err(SError::StackOverflow))
    } else {
        let (st1, r1) = sp_eval_expr(st, cur, args[0], log, (fuel - 1) as nat);
        match r1 {
            Ok(v) => {
                let (st2, r2) = sp_eval_args(st1, cur, args.drop_first(), log, fuel);
                match r2 {
                    Ok(vs) => (st2, Ok(seq![v] + vs)),
                    Err(er) => (st2, Err(er)),
                }
            },
            Err(er) => (st1, Err(er)),
        }
    }
}

/// Invoke a user function: the arity gate, then a fresh frame chained to
/// the function's captured frame (not the caller's frame: this is what
/// makes scoping lexical), the body, and the return signal consumed into
/// the call's result.
pub open spec fn sp_call_function(
    st: State,
    f: SFunction,
    args: Seq<SValue>,
    log: Seq<i64>,
    fuel: nat,
) -> (State, Result<Option<SValue>, SError>)
    decreases fuel, 0int,
{
    if fuel == 0 {
        (st, Err(SError::StackOverflow))
    } else if args.len() != f.params.len() {
        (st, Err(SError::ArityMismatch { expected: f.params.len(), got: args.len() }))
    } else {
        let c = st.frames.len() as int;
        let st1 = State {
            frames: st.frames.push(
                SFrame { bindings: bind_params(f.params, args), enclosing: Some(f.closure) },
            ),
            ..st
        };
        let (st2, r) = sp_exec_stmts(st1, c, f.body, log, (fuel - 1) as nat);
        match r {
            Ok(SOutcome::Normal) => (st2, Ok(None)),
            Ok(SOutcome::Return(v)) => (st2, Ok(Some(v))),
            Err(er) => (st2, Err(er)),
        }
    }
}

/// Execute one statement.
pub open spec fn sp_exec_stmt(st: State, cur: int, s: Stmt, log: Seq<i64>, fuel: nat) -> (State,
    Result<SOutcome, SError>)
    decreases fuel, 0int,
{
    if fuel == 0 {
        (st, Err(SError::StackOverflow))
    } else {
        let f1 = (fuel - 1) as nat;
        match s {
            Stmt::Expression(e) => {
                let (st1, r) = sp_eval_expr(st, cur, e, log, f1);
                match r {
                    Ok(_) => (st1, Ok(SOutcome::Normal)),
                    Err(er) => (st1, Err(er)),
                }
            },
            Stmt::Print(e) => {
                let (st1, r) = sp_eval_expr(st, cur, e, log, f1);
                match r {
                    Ok(v) => (
                        State { out: st1.out.push(render_sval(v)), ..st1 },
                        Ok(SOutcome::Normal),
                    ),
                    Err(er) => (st1, Err(er)),
                }
            },
            Stmt::Var(x, init) => match init {
                Some(e) => {
                    let (st1, r) = sp_eval_expr(st, cur, e, log, f1);
                    match r {
                        Ok(v) => (define_in(st1, cur, x@, v), Ok(SOutcome::Normal)),
                        Err(er) => (st1, Err(er)),
                    }
                },
                None => (define_in(st, cur, x@, SValue::Nil), Ok(SOutcome::Normal)),
            },
            Stmt::Block(body) => {
                let c = st.frames.len() as int;
                let st1 = State {
                    frames: st.frames.push(
                        SFrame { bindings: Map::empty(), enclosing: Some(cur) },
                    ),
                    ..st
                };
                sp_exec_stmts(st1, c, body@, log, f1)
            },
            Stmt::If(cond, th, el) => {
                let (st1, r) = sp_eval_expr(st, cur, cond, log, f1);
                match r {
                    Ok(v) => if truthy(v) {
                        sp_exec_stmt(st1, cur, *th, log, f1)
                    } else {
                        match el {
                            Some(es) => sp_exec_stmt(st1, cur, *es, log, f1),
                            None => (st1, Ok(SOutcome::Normal)),
                        }
                    },
                    Err(er) => (st1, Err(er)),
                }
            },
            Stmt::While(cond, body) => {
                let (st1, r) = sp_eval_expr(st, cur, cond, log, f1);
                match r {
                    Ok(v) => if truthy(v) {
                        let (st2, r2) = sp_exec_stmt(st1, cur, *body, log, f1);
                        match r2 {
                            Ok(SOutcome::Normal) => sp_exec_stmt(
                                st2,
                                cur,
                                Stmt::While(cond, body),
                                log,
                                f1,
                            ),
                            Ok(SOutcome::Return(rv)) => (st2, Ok(SOutcome::Return(rv))),
                            Err(er) => (st2, Err(er)),
                        }
                    } else {
                        (st1, Ok(SOutcome::Normal))
                    },
                    Err(er) => (st1, Err(er)),
                }
            },
            Stmt::Function(nm, ps, bd) => {
                let fv = SValue::Callable(
                    SCallee::User(
                        SFunction {
                            name: nm@,
                            params: ps@.map_values(|p: String| p@),
                            body: bd@,
                            closure: cur,
                        },
                    ),
                );
                (define_in(st, cur, nm@, fv), Ok(SOutcome::Normal))
            },
            Stmt::Return(opt) => match opt {
                Some(e) => {
                    let (st1, r) = sp_eval_expr(st, cur, e, log, f1);
                    match r {
                        Ok(v) => (st1, Ok(SOutcome::Return(v))),
                        Err(er) => (st1, Err(er)),
                    }
                },
                None => (st, Ok(SOutcome::Return(SValue::Nil))),
            },
        }
    }
}

/// Execute a statement list in order, stopping at the first in-flight
/// `return` or error and re-reporting it.
pub open spec fn sp_exec_stmts(st: State, cur: int, ss: Seq<Stmt>, log: Seq<i64>, fuel: nat) -> (
    State,
    Result<SOutcome, SError>,
)
    decreases fuel, ss.len(),
{
    if ss.len() == 0 {
        (st, Ok(SOutcome::Normal))
    } else if fuel == 0 {
        (st, Err(SError::StackOverflow))
    } else {
        let (st1, r1) = sp_exec_stmt(st, cur, ss[0], log, (fuel - 1) as nat);
        match r1 {
            Ok(SOutcome::Normal) => sp_exec_stmts(st1, cur, ss.drop_first(), log, fuel),
            Ok(SOutcome::Return(v)) => (st1, Ok(SOutcome::Return(v))),
            Err(er) => (st1, Err(er)),
        }
    }
}

/// Run a whole program in the globals frame (index 0); a top-level
/// return signal is consumed without effect.
pub open spec fn sp_interpret(st: State, prog: Seq<Stmt>, log: Seq<i64>, fuel: nat) -> (State,
    Result<(), SError>)
{
    let (st1, r) = sp_exec_stmts(st, 0, prog, log, fuel);
    match r {
        Ok(_) => (st1, Ok(())),
        Err(er) => (st1, Err(er)),
    }
}

} // verus!
