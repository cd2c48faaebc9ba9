//! The evaluator: walks the tree, reads and writes scope frames, and is
//! proved equal, step for step, to the spec interpreter in `state`.
//!
//! The clock readings a run takes are kept in a ghost log; every contract
//! relates the executable state to the spec run under that log.

use crate::ast::{BinOp, Expr, Lit, Stmt, UnOp};
use crate::env::{defining_frame, frame_ok, Env, SFrame};
use crate::error::{Error, OpId, SError};
use crate::render::render;
use crate::stability::{
    lemma_eval_args_extend, lemma_eval_expr_extend, lemma_exec_stmt_extend,
};
use crate::state::{
    bind_params, lemma_lookup_wf, lemma_wf_insert, lemma_wf_push, sp_binop, sp_call_clock,
    sp_call_function, sp_eval_args, sp_eval_expr, sp_exec_stmt, sp_exec_stmts, sp_interpret,
    sp_unop, sval_eq, tick_at, wf_state, SOutcome, State,
};
use crate::value::{rc_dup, sval_wf, truthy, Callee, Clock, Function, SCallee, SValue, Value};
use std::rc::Rc;
use vstd::prelude::*;

verus! {

broadcast use crate::state::lemma_prefix_refl, crate::state::lemma_prefix_trans;

/// Outcome of one executed statement: normal completion or an in-flight
/// `return` on its way to the enclosing call.
pub enum Outcome {
    Normal,
    Return(Rc<Value>),
}

impl Outcome {
    pub open spec fn sview(&self) -> SOutcome {
        match self {
            Outcome::Normal => SOutcome::Normal,
            Outcome::Return(v) => SOutcome::Return(v.sview()),
        }
    }
}

pub open spec fn res_val_view(r: Result<Rc<Value>, Error>) -> Result<SValue, SError> {
    match r {
        Ok(v) => Ok(v.sview()),
        Err(e) => Err(e.sview()),
    }
}

pub open spec fn res_out_view(r: Result<Outcome, Error>) -> Result<SOutcome, SError> {
    match r {
        Ok(o) => Ok(o.sview()),
        Err(e) => Err(e.sview()),
    }
}

pub open spec fn res_args_view(r: Result<Vec<Rc<Value>>, Error>) -> Result<Seq<SValue>, SError> {
    match r {
        Ok(vs) => Ok(vs@.map_values(|v: Rc<Value>| v.sview())),
        Err(e) => Err(e.sview()),
    }
}

pub open spec fn res_opt_view(r: Result<Option<Rc<Value>>, Error>) -> Result<
    Option<SValue>,
    SError,
> {
    match r {
        Ok(Some(v)) => Ok(Some(v.sview())),
        Ok(None) => Ok(None),
        Err(e) => Err(e.sview()),
    }
}

/// What every evaluation step guarantees about the state: it stays well
/// formed, frames are never removed, and the clock log only grows.
pub open spec fn steps_ok(pre: State, post: State) -> bool {
    wf_state(post) && pre.frames.len() <= post.frames.len() && pre.ticks.is_prefix_of(post.ticks)
}

/// Relies on `std::time::SystemTime::now`, read as whole seconds since
/// the Unix epoch; a clock before the epoch reads as zero.
#[verifier::external_body]
fn clock_seconds() -> (r: u64) {
    std::time::SystemTime::now()
        .duration_since(std::time::UNIX_EPOCH)
        .map_or(0, |d| d.as_secs())
}

fn mk_mismatch2(op: BinOp, l: &Rc<Value>, r: &Rc<Value>) -> (e: Error)
    ensures
        e.sview() == crate::state::mismatch2(op, l.sview(), r.sview()),
{
    let mut operands: Vec<Rc<Value>> = Vec::new();
    operands.push(rc_dup(l));
    operands.push(rc_dup(r));
    proof {
        assert(operands@.map_values(|v: Rc<Value>| v.sview()) =~= seq![l.sview(), r.sview()]);
    }
    Error::TypeMismatch { op: OpId::Bin(op), operands }
}

fn mk_mismatch1(op: UnOp, v: &Rc<Value>) -> (e: Error)
    ensures
        e.sview() == (SError::TypeMismatch { op: OpId::Un(op), operands: seq![v.sview()] }),
{
    let mut operands: Vec<Rc<Value>> = Vec::new();
    operands.push(rc_dup(v));
    proof {
        assert(operands@.map_values(|v2: Rc<Value>| v2.sview()) =~= seq![v.sview()]);
    }
    Error::TypeMismatch { op: OpId::Un(op), operands }
}

/// Truthiness of a value.
pub fn truthy_exec(v: &Rc<Value>) -> (b: bool)
    ensures
        b == truthy(v.sview()),
{
    match &**v {
        Value::Nil => false,
        Value::Bool(b) => *b,
        _ => true,
    }
}

/// The language's `==` on two values.
pub fn val_eq(l: &Rc<Value>, r: &Rc<Value>) -> (b: bool)
    ensures
        b == sval_eq(l.sview(), r.sview()),
{
    match (&**l, &**r) {
        (Value::Nil, Value::Nil) => true,
        (Value::Bool(a), Value::Bool(b)) => *a == *b,
        (Value::Num(a), Value::Num(b)) => *a == *b,
        (Value::Str(a), Value::Str(b)) => *a == *b,
        _ => false,
    }
}

/// Apply a binary operator to two values.
pub fn eval_binop(op: BinOp, l: &Rc<Value>, r: &Rc<Value>) -> (res: Result<Rc<Value>, Error>)
    ensures
        res_val_view(res) == sp_binop(op, l.sview(), r.sview()),
        res matches Ok(v) ==> !(v.sview() matches SValue::Callable(_)),
{
    match op {
        BinOp::Add => match (&**l, &**r) {
            (Value::Num(a), Value::Num(b)) => Ok(Rc::new(Value::Num(a.wrapping_add(*b)))),
            (Value::Str(a), Value::Str(b)) => {
                let mut s = a.clone();
                s.append(b.as_str());
                Ok(Rc::new(Value::Str(s)))
            },
            _ => Err(mk_mismatch2(op, l, r)),
        },
        BinOp::Sub => match (&**l, &**r) {
            (Value::Num(a), Value::Num(b)) => Ok(Rc::new(Value::Num(a.wrapping_sub(*b)))),
            _ => Err(mk_mismatch2(op, l, r)),
        },
        BinOp::Mul => match (&**l, &**r) {
            (Value::Num(a), Value::Num(b)) => Ok(Rc::new(Value::Num(a.wrapping_mul(*b)))),
            _ => Err(mk_mismatch2(op, l, r)),
        },
        BinOp::Div => match (&**l, &**r) {
            (Value::Num(a), Value::Num(b)) => match a.checked_div(*b) {
                Some(q) => Ok(Rc::new(Value::Num(q))),
                None => Err(mk_mismatch2(op, l, r)),
            },
            _ => Err(mk_mismatch2(op, l, r)),
        },
        BinOp::Eq => Ok(Rc::new(Value::Bool(val_eq(l, r)))),
        BinOp::Ne => Ok(Rc::new(Value::Bool(!val_eq(l, r)))),
        BinOp::Lt => match (&**l, &**r) {
            (Value::Num(a), Value::Num(b)) => Ok(Rc::new(Value::Bool(*a < *b))),
            _ => Err(mk_mismatch2(op, l, r)),
        },
        BinOp::Le => match (&**l, &**r) {
            (Value::Num(a), Value::Num(b)) => Ok(Rc::new(Value::Bool(*a <= *b))),
            _ => Err(mk_mismatch2(op, l, r)),
        },
        BinOp::Gt => match (&**l, &**r) {
            (Value::Num(a), Value::Num(b)) => Ok(Rc::new(Value::Bool(*a > *b))),
            _ => Err(mk_mismatch2(op, l, r)),
        },
        BinOp::Ge => match (&**l, &**r) {
            (Value::Num(a), Value::Num(b)) => Ok(Rc::new(Value::Bool(*a >= *b))),
            _ => Err(mk_mismatch2(op, l, r)),
        },
    }
}

/// Apply a unary operator to a value.
pub fn eval_unop(op: UnOp, v: &Rc<Value>) -> (res: Result<Rc<Value>, Error>)
    ensures
        res_val_view(res) == sp_unop(op, v.sview()),
        res matches Ok(rv) ==> !(rv.sview() matches SValue::Callable(_)),
{
    match op {
        UnOp::Neg => match &**v {
            Value::Num(a) => Ok(Rc::new(Value::Num((0 as i64).wrapping_sub(*a)))),
            _ => Err(mk_mismatch1(op, v)),
        },
        UnOp::Not => Ok(Rc::new(Value::Bool(!truthy_exec(v)))),
    }
}

/// The evaluator: the frame arena, the lines printed so far, and the
/// ghost log of clock readings taken so far. The globals frame is frame
/// 0, created once by `new` and alive for the whole run.
pub struct Interpreter {
    pub env: Env,
    pub output: Vec<String>,
    pub ticks: Ghost<Seq<i64>>,
}

impl View for Interpreter {
    type V = State;

    open spec fn view(&self) -> State {
        State {
            frames: self.env@,
            out: self.output@.map_values(|s: String| s@),
            ticks: self.ticks@,
        }
    }
}

impl Interpreter {
    pub open spec fn wf(&self) -> bool {
        wf_state(self@)
    }

    /// A fresh evaluator: one globals frame holding the one native
    /// function, `clock`.
    pub fn new() -> (it: Interpreter)
        ensures
            it.wf(),
            it@ == (State {
                frames: seq![
                    SFrame {
                        bindings: Map::<Seq<char>, SValue>::empty().insert(
                            "clock"@,
                            SValue::Callable(SCallee::Native),
                        ),
                        enclosing: None,
                    },
                ],
                out: Seq::<Seq<char>>::empty(),
                ticks: Seq::<i64>::empty(),
            }),
    {
        let mut it = Interpreter {
            env: Env { frames: Vec::new() },
            output: Vec::new(),
            ticks: Ghost(Seq::empty()),
        };
        let g = it.env.root();
        let clock_name: String = "clock".to_owned();
        it.env.define(g, &clock_name, Rc::new(Value::Callable(Callee::Native(Clock))));
        proof {
            assert(it@.frames =~= seq![
                SFrame {
                    bindings: Map::<Seq<char>, SValue>::empty().insert(
                        "clock"@,
                        SValue::Callable(SCallee::Native),
                    ),
                    enclosing: None,
                },
            ]);
            assert(it@.out =~= Seq::<Seq<char>>::empty());
            assert(it@ =~= State {
                frames: it@.frames,
                out: Seq::<Seq<char>>::empty(),
                ticks: Seq::<i64>::empty(),
            });
            assert forall|i: int| 0 <= i < it@.frames.len() implies #[trigger] frame_ok(
                it@.frames[i],
                i,
            ) by {}
        }
        it
    }

    /// The lines printed so far, in order.
    pub fn output(&self) -> (o: &Vec<String>)
        ensures
            o@.map_values(|s: String| s@) == self@.out,
    {
        &self.output
    }

    /// The native clock: checks the arity, reads the wall clock, logs
    /// the reading and returns it as a number.
    pub fn native_clock(&mut self, got: usize) -> (r: Result<Rc<Value>, Error>)
        requires
            old(self).wf(),
        ensures
            steps_ok(old(self)@, final(self)@),
            old(self)@.frames.len() == final(self)@.frames.len(),
            (final(self)@, res_val_view(r)) == sp_call_clock(
                old(self)@,
                got as nat,
                final(self)@.ticks,
            ),
            r matches Ok(v) ==> sval_wf(v.sview(), final(self)@.frames.len() as int),
    {
        if got != 0 {
            return Err(Error::ArityMismatch { expected: 0, got });
        }
        let s = clock_seconds();
        let t: i64 = if s > (i64::MAX as u64) {
            i64::MAX
        } else {
            s as i64
        };
        proof {
            assert(self.ticks@.push(t).subrange(0, self.ticks@.len() as int) =~= self.ticks@);
        }
        self.ticks = Ghost(self.ticks@.push(t));
        proof {
            assert(tick_at(self.ticks@, self.ticks@.len() - 1) == t);
        }
        Ok(Rc::new(Value::Num(t)))
    }

    /// Evaluate an expression in frame `cur`.
    pub fn eval_expr(&mut self, cur: usize, e: &Expr, fuel: u64) -> (r: Result<Rc<Value>, Error>)
        requires
            old(self).wf(),
            (cur as int) < old(self)@.frames.len(),
        ensures
            steps_ok(old(self)@, final(self)@),
            (final(self)@, res_val_view(r)) == sp_eval_expr(
                old(self)@,
                cur as int,
                *e,
                final(self)@.ticks,
                fuel as nat,
            ),
            (r matches Ok(v) ==> sval_wf(v.sview(), final(self)@.frames.len() as int)),
        decreases fuel, 0int,
    {
        if fuel == 0 {
            return Err(Error::StackOverflow);
        }
        let f1 = fuel - 1;
        match e {
            Expr::Literal(l) => {
                let v = match l {
                    Lit::Nil => Rc::new(Value::Nil),
                    Lit::Bool(b) => Rc::new(Value::Bool(*b)),
                    Lit::Num(n) => Rc::new(Value::Num(*n)),
                    Lit::Str(s) => Rc::new(Value::Str(s.clone())),
                };
                Ok(v)
            },
            Expr::Variable(x) => {
                proof {
                    lemma_lookup_wf(self@.frames, cur as int, x@);
                }
                match self.env.get(cur, x) {
                    Ok(v) => Ok(v),
                    Err(er) => Err(er),
                }
            },
            Expr::Grouping(inner) => self.eval_expr(cur, inner, f1),
            Expr::Unary(op, inner) => {
                let v = match self.eval_expr(cur, inner, f1) {
                    Ok(v) => v,
                    Err(er) => return Err(er),
                };
                eval_unop(*op, &v)
            },
            Expr::Binary(op, le, re) => {
                let lv = match self.eval_expr(cur, le, f1) {
                    Ok(v) => v,
                    Err(er) => return Err(er),
                };
                let ghost mid = self@;
                let r2 = self.eval_expr(cur, re, f1);
                proof {
                    lemma_eval_expr_extend(
                        old(self)@,
                        cur as int,
                        **le,
                        mid.ticks,
                        self@.ticks,
                        f1 as nat,
                    );
                }
                let rv = match r2 {
                    Ok(v) => v,
                    Err(er) => return Err(er),
                };
                eval_binop(*op, &lv, &rv)
            },
            Expr::Assign(x, rhs) => {
                let v = match self.eval_expr(cur, rhs, f1) {
                    Ok(v) => v,
                    Err(er) => return Err(er),
                };
                let ghost mid = self@;
                let stored = rc_dup(&v);
                match self.env.assign(cur, x, stored) {
                    Ok(_) => {
                        proof {
                            crate::env::lemma_defining_frame_props(mid.frames, cur as int, x@);
                            match defining_frame(mid.frames, cur as int, x@) {
                                Some(d) => {
                                    lemma_wf_insert(mid.frames, d, x@, v.sview());
                                },
                                None => {},
                            }
                        }
                        Ok(v)
                    },
                    Err(er) => Err(er),
                }
            },
            Expr::Call(callee, args) => {
                let cv = match self.eval_expr(cur, callee, f1) {
                    Ok(v) => v,
                    Err(er) => return Err(er),
                };
                let ghost mid1 = self@;
                let r2 = self.eval_args(cur, args, 0, f1);
                proof {
                    assert(args@.skip(0) =~= args@);
                    lemma_eval_expr_extend(
                        old(self)@,
                        cur as int,
                        **callee,
                        mid1.ticks,
                        self@.ticks,
                        f1 as nat,
                    );
                }
                let vs = match r2 {
                    Ok(vs) => vs,
                    Err(er) => return Err(er),
                };
                let ghost mid2 = self@;
                match &*cv {
                    Value::Callable(Callee::User(f)) => {
                        let r3 = self.call_function(f, vs, f1);
                        proof {
                            lemma_eval_expr_extend(
                                old(self)@,
                                cur as int,
                                **callee,
                                mid1.ticks,
                                self@.ticks,
                                f1 as nat,
                            );
                            lemma_eval_args_extend(
                                mid1,
                                cur as int,
                                args@,
                                mid2.ticks,
                                self@.ticks,
                                f1 as nat,
                            );
                        }
                        match r3 {
                            Ok(Some(v)) => Ok(v),
                            Ok(None) => Ok(Rc::new(Value::Nil)),
                            Err(er) => Err(er),
                        }
                    },
                    Value::Callable(Callee::Native(_)) => {
                        let r3 = self.native_clock(vs.len());
                        proof {
                            lemma_eval_expr_extend(
                                old(self)@,
                                cur as int,
                                **callee,
                                mid1.ticks,
                                self@.ticks,
                                f1 as nat,
                            );
                            lemma_eval_args_extend(
                                mid1,
                                cur as int,
                                args@,
                                mid2.ticks,
                                self@.ticks,
                                f1 as nat,
                            );
                        }
                        match r3 {
                            Ok(v) => Ok(v),
                            Err(er) => Err(er),
                        }
                    },
                    _ => Err(Error::NotCallable(rc_dup(&cv))),
                }
            },
        }
    }

    /// Evaluate the argument expressions from index `i` on, left to
    /// right.
    pub fn eval_args(&mut self, cur: usize, args: &Vec<Expr>, i: usize, fuel: u64) -> (r: Result<
        Vec<Rc<Value>>,
        Error,
    >)
        requires
            old(self).wf(),
            (cur as int) < old(self)@.frames.len(),
            i <= args@.len(),
        ensures
            steps_ok(old(self)@, final(self)@),
            (final(self)@, res_args_view(r)) == sp_eval_args(
                old(self)@,
                cur as int,
                args@.skip(i as int),
                final(self)@.ticks,
                fuel as nat,
            ),
            (r matches Ok(vs) ==> forall|k: int|
                0 <= k < vs@.len() ==> sval_wf(
                    #[trigger] vs@[k].sview(),
                    final(self)@.frames.len() as int,
                )),
        decreases fuel, args@.len() - i,
    {
        if i == args.len() {
            let none: Vec<Rc<Value>> = Vec::new();
            proof {
                assert(args@.skip(i as int) =~= Seq::<Expr>::empty());
                assert(none@.map_values(|v: Rc<Value>| v.sview()) =~= Seq::<SValue>::empty());
            }
            return Ok(none);
        }
        if fuel == 0 {
            return Err(Error::StackOverflow);
        }
        proof {
            assert(args@.skip(i as int)[0] == args@[i as int]);
        }
        let v = match self.eval_expr(cur, &args[i], fuel - 1) {
            Ok(v) => v,
            Err(er) => return Err(er),
        };
        let ghost mid = self@;
        let r2 = self.eval_args(cur, args, i + 1, fuel);
        proof {
            lemma_eval_expr_extend(
                old(self)@,
                cur as int,
                args@[i as int],
                mid.ticks,
                self@.ticks,
                (fuel - 1) as nat,
            );
            assert(args@.skip(i as int).drop_first() =~= args@.skip(i as int + 1));
        }
        let mut vs = match r2 {
            Ok(vs) => vs,
            Err(er) => return Err(er),
        };
        let ghost rest_views = vs@.map_values(|x: Rc<Value>| x.sview());
        vs.insert(0, v);
        proof {
            assert(vs@.map_values(|x: Rc<Value>| x.sview()) =~= seq![vs@[0].sview()] + rest_views);
        }
        Ok(vs)
    }

    /// Invoke a user function: the arity gate, a fresh frame chained to
    /// the function's captured frame, the parameters bound to the
    /// arguments, and the body run with the return signal consumed into
    /// the call's result.
    pub fn call_function(&mut self, f: &Function, args: Vec<Rc<Value>>, fuel: u64) -> (r: Result<
        Option<Rc<Value>>,
        Error,
    >)
        requires
            old(self).wf(),
            (f.closure as int) < old(self)@.frames.len(),
            forall|k: int|
                0 <= k < args@.len() ==> sval_wf(
                    #[trigger] args@[k].sview(),
                    old(self)@.frames.len() as int,
                ),
        ensures
            steps_ok(old(self)@, final(self)@),
            (final(self)@, res_opt_view(r)) == sp_call_function(
                old(self)@,
                f.sview(),
                args@.map_values(|v: Rc<Value>| v.sview()),
                final(self)@.ticks,
                fuel as nat,
            ),
            (r matches Ok(o) ==> (o matches Some(v) ==> sval_wf(
                v.sview(),
                final(self)@.frames.len() as int,
            ))),
        decreases fuel, 0int,
    {
        if fuel == 0 {
            return Err(Error::StackOverflow);
        }
        let nparams = f.params.len();
        if args.len() != nparams {
            return Err(Error::ArityMismatch { expected: nparams, got: args.len() });
        }
        let ghost aviews = args@.map_values(|v: Rc<Value>| v.sview());
        let c = self.env.child(f.closure);
        proof {
            lemma_wf_push(
                old(self)@.frames,
                SFrame { bindings: Map::empty(), enclosing: Some(f.closure as int) },
            );
        }
        let ghost base = self@;
        let mut k: usize = 0;
        while k < nparams
            invariant
                self.wf(),
                k <= nparams,
                nparams == args@.len(),
                nparams == f.params@.len(),
                aviews == args@.map_values(|v: Rc<Value>| v.sview()),
                (c as int) == base.frames.len() - 1,
                base.frames.len() == self@.frames.len(),
                forall|j: int|
                    0 <= j < args@.len() ==> sval_wf(
                        #[trigger] args@[j].sview(),
                        base.frames.len() as int,
                    ),
                self@ == (State {
                    frames: base.frames.update(
                        c as int,
                        SFrame {
                            bindings: bind_params(
                                f.sview().params.take(k as int),
                                aviews.take(k as int),
                            ),
                            enclosing: Some(f.closure as int),
                        },
                    ),
                    ..base
                }),
                wf_state(base),
            decreases nparams - k,
        {
            proof {
                assert(f.sview().params.take(k as int + 1).drop_last() =~= f.sview().params.take(
                    k as int,
                ));
                assert(aviews.take(k as int + 1).drop_last() =~= aviews.take(k as int));
                assert(f.sview().params[k as int] == f.params@[k as int]@);
            }
            let ghost pre_frames = self@.frames;
            self.env.define(c, &f.params[k], rc_dup(&args[k]));
            proof {
                lemma_wf_insert(pre_frames, c as int, f.params@[k as int]@, args@[k as int].sview());
                assert(self@.frames =~= base.frames.update(
                    c as int,
                    SFrame {
                        bindings: bind_params(
                            f.sview().params.take(k as int + 1),
                            aviews.take(k as int + 1),
                        ),
                        enclosing: Some(f.closure as int),
                    },
                ));
            }
            k += 1;
        }
        proof {
            assert(f.sview().params.take(nparams as int) =~= f.sview().params);
            assert(aviews.take(nparams as int) =~= aviews);
            assert(self@.frames =~= old(self)@.frames.push(
                SFrame {
                    bindings: bind_params(f.sview().params, aviews),
                    enclosing: Some(f.closure as int),
                },
            ));
        }
        let r = self.exec_stmts(c, &f.body, 0, fuel - 1);
        proof {
            assert(f.body@.skip(0) =~= f.sview().body);
        }
        match r {
            Ok(Outcome::Normal) => Ok(None),
            Ok(Outcome::Return(v)) => Ok(Some(v)),
            Err(er) => Err(er),
        }
    }

    /// Execute one statement in frame `cur`.
    pub fn exec_stmt(&mut self, cur: usize, s: &Stmt, fuel: u64) -> (r: Result<Outcome, Error>)
        requires
            old(self).wf(),
            (cur as int) < old(self)@.frames.len(),
        ensures
            steps_ok(old(self)@, final(self)@),
            (final(self)@, res_out_view(r)) == sp_exec_stmt(
                old(self)@,
                cur as int,
                *s,
                final(self)@.ticks,
                fuel as nat,
            ),
            (r matches Ok(o) ==> (o matches Outcome::Return(v) ==> sval_wf(
                v.sview(),
                final(self)@.frames.len() as int,
            ))),
        decreases fuel, 1int,
    {
        if fuel == 0 {
            return Err(Error::StackOverflow);
        }
        let f1 = fuel - 1;
        match s {
            Stmt::Expression(e) => {
                match self.eval_expr(cur, e, f1) {
                    Ok(_) => Ok(Outcome::Normal),
                    Err(er) => Err(er),
                }
            },
            Stmt::Print(e) => {
                let v = match self.eval_expr(cur, e, f1) {
                    Ok(v) => v,
                    Err(er) => return Err(er),
                };
                let ghost mid = self@;
                let text = render(&v);
                self.output.push(text);
                proof {
                    assert(self@.out =~= mid.out.push(crate::render::render_sval(v.sview())));
                }
                Ok(Outcome::Normal)
            },
            Stmt::Var(x, init) => {
                let v = match init {
                    Some(e) => match self.eval_expr(cur, e, f1) {
                        Ok(v) => v,
                        Err(er) => return Err(er),
                    },
                    None => Rc::new(Value::Nil),
                };
                let ghost mid = self@;
                let ghost vv = v.sview();
                self.env.define(cur, x, v);
                proof {
                    lemma_wf_insert(mid.frames, cur as int, x@, vv);
                }
                Ok(Outcome::Normal)
            },
            Stmt::Block(body) => {
                let c = self.env.child(cur);
                proof {
                    lemma_wf_push(
                        old(self)@.frames,
                        SFrame { bindings: Map::empty(), enclosing: Some(cur as int) },
                    );
                }
                let r = self.exec_stmts(c, body, 0, f1);
                proof {
                    assert(body@.skip(0) =~= body@);
                }
                r
            },
            Stmt::If(cond, th, el) => {
                let cv = match self.eval_expr(cur, cond, f1) {
                    Ok(v) => v,
                    Err(er) => return Err(er),
                };
                let ghost mid = self@;
                if truthy_exec(&cv) {
                    let r = self.exec_stmt(cur, th, f1);
                    proof {
                        lemma_eval_expr_extend(
                            old(self)@,
                            cur as int,
                            *cond,
                            mid.ticks,
                            self@.ticks,
                            f1 as nat,
                        );
                    }
                    r
                } else {
                    match el {
                        Some(es) => {
                            let r = self.exec_stmt(cur, es, f1);
                            proof {
                                lemma_eval_expr_extend(
                                    old(self)@,
                                    cur as int,
                                    *cond,
                                    mid.ticks,
                                    self@.ticks,
                                    f1 as nat,
                                );
                            }
                            r
                        },
                        None => Ok(Outcome::Normal),
                    }
                }
            },
            Stmt::While(cond, body) => {
                let cv = match self.eval_expr(cur, cond, f1) {
                    Ok(v) => v,
                    Err(er) => return Err(er),
                };
                let ghost mid1 = self@;
                if truthy_exec(&cv) {
                    let r2 = self.exec_stmt(cur, body, f1);
                    proof {
                        lemma_eval_expr_extend(
                            old(self)@,
                            cur as int,
                            *cond,
                            mid1.ticks,
                            self@.ticks,
                            f1 as nat,
                        );
                    }
                    let ghost mid2 = self@;
                    match r2 {
                        Ok(Outcome::Normal) => {
                            let r3 = self.exec_stmt(cur, s, f1);
                            proof {
                                lemma_eval_expr_extend(
                                    old(self)@,
                                    cur as int,
                                    *cond,
                                    mid1.ticks,
                                    self@.ticks,
                                    f1 as nat,
                                );
                                lemma_exec_stmt_extend(
                                    mid1,
                                    cur as int,
                                    **body,
                                    mid2.ticks,
                                    self@.ticks,
                                    f1 as nat,
                                );
                            }
                            r3
                        },
                        Ok(Outcome::Return(v)) => Ok(Outcome::Return(v)),
                        Err(er) => Err(er),
                    }
                } else {
                    Ok(Outcome::Normal)
                }
            },
            Stmt::Function(nm, ps, bd) => {
                let func = Function {
                    name: nm.clone(),
                    params: rc_dup(ps),
                    body: rc_dup(bd),
                    closure: cur,
                };
                let fv = Rc::new(Value::Callable(Callee::User(func)));
                let ghost vv = fv.sview();
                self.env.define(cur, nm, fv);
                proof {
                    lemma_wf_insert(old(self)@.frames, cur as int, nm@, vv);
                }
                Ok(Outcome::Normal)
            },
            Stmt::Return(opt) => {
                match opt {
                    Some(e) => match self.eval_expr(cur, e, f1) {
                        Ok(v) => Ok(Outcome::Return(v)),
                        Err(er) => Err(er),
                    },
                    None => Ok(Outcome::Return(Rc::new(Value::Nil))),
                }
            },
        }
    }

    /// Execute the statements from index `i` on, in order, stopping at
    /// the first in-flight `return` or error.
    pub fn exec_stmts(&mut self, cur: usize, ss: &Vec<Stmt>, i: usize, fuel: u64) -> (r: Result<
        Outcome,
        Error,
    >)
        requires
            old(self).wf(),
            (cur as int) < old(self)@.frames.len(),
            i <= ss@.len(),
        ensures
            steps_ok(old(self)@, final(self)@),
            (final(self)@, res_out_view(r)) == sp_exec_stmts(
                old(self)@,
                cur as int,
                ss@.skip(i as int),
                final(self)@.ticks,
                fuel as nat,
            ),
            (r matches Ok(o) ==> (o matches Outcome::Return(v) ==> sval_wf(
                v.sview(),
                final(self)@.frames.len() as int,
            ))),
        decreases fuel, ss@.len() - i,
    {
        if i == ss.len() {
            proof {
                assert(ss@.skip(i as int) =~= Seq::<Stmt>::empty());
            }
            return Ok(Outcome::Normal);
        }
        if fuel == 0 {
            return Err(Error::StackOverflow);
        }
        proof {
            assert(ss@.skip(i as int)[0] == ss@[i as int]);
        }
        let r1 = self.exec_stmt(cur, &ss[i], fuel - 1);
        match r1 {
            Ok(Outcome::Normal) => {
                let ghost mid = self@;
                let r2 = self.exec_stmts(cur, ss, i + 1, fuel);
                proof {
                    lemma_exec_stmt_extend(
                        old(self)@,
                        cur as int,
                        ss@[i as int],
                        mid.ticks,
                        self@.ticks,
                        (fuel - 1) as nat,
                    );
                    assert(ss@.skip(i as int).drop_first() =~= ss@.skip(i as int + 1));
                }
                r2
            },
            Ok(Outcome::Return(v)) => Ok(Outcome::Return(v)),
            Err(er) => Err(er),
        }
    }

    /// Run a whole program in the globals frame. The result, the output
    /// and the final frames are exactly those of the spec run under the
    /// clock readings that occurred.
    pub fn interpret(&mut self, program: &Vec<Stmt>, fuel: u64) -> (r: Result<(), Error>)
        requires
            old(self).wf(),
            0 < old(self)@.frames.len(),
        ensures
            steps_ok(old(self)@, final(self)@),
            (final(self)@, (match r {
                Ok(_) => Ok::<(), SError>(()),
                Err(e) => Err(e.sview()),
            })) == sp_interpret(old(self)@, program@, final(self)@.ticks, fuel as nat),
    {
        let rr = self.exec_stmts(0, program, 0, fuel);
        proof {
            assert(program@.skip(0) =~= program@);
        }
        match rr {
            Ok(_) => Ok(()),
            Err(er) => Err(er),
        }
    }
}

} // verus!
