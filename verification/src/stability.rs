//! Two facts about the spec interpreter's use of the clock log.
//!
//! First, a run only ever appends to the log of readings. Second, a run
//! that stays within a log is unchanged when that log is extended: the
//! executable interpreter proves each sub-step against the log as it
//! stood at that step's end, and these lemmas carry those facts forward
//! to the log of the whole run.

use crate::ast::{Expr, Stmt};
use crate::state::{
    sp_call_function, sp_eval_args, sp_eval_expr, sp_exec_stmt, sp_exec_stmts, SOutcome, State,
};
use crate::value::{SCallee, SFunction, SValue};
use vstd::prelude::*;

verus! {

pub proof fn lemma_eval_expr_mono(st: State, cur: int, e: Expr, log: Seq<i64>, fuel: nat)
    ensures
        st.ticks.len() <= sp_eval_expr(st, cur, e, log, fuel).0.ticks.len(),
    decreases fuel, 0int,
{
    if fuel != 0 {
        let f1 = (fuel - 1) as nat;
        match e {
            Expr::Literal(_) => {},
            Expr::Variable(_) => {},
            Expr::Grouping(inner) => {
                lemma_eval_expr_mono(st, cur, *inner, log, f1);
            },
            Expr::Unary(_, inner) => {
                lemma_eval_expr_mono(st, cur, *inner, log, f1);
            },
            Expr::Binary(_, le, re) => {
                lemma_eval_expr_mono(st, cur, *le, log, f1);
                let (st1, r1) = sp_eval_expr(st, cur, *le, log, f1);
                if r1 is Ok {
                    lemma_eval_expr_mono(st1, cur, *re, log, f1);
                }
            },
            Expr::Assign(_, rhs) => {
                lemma_eval_expr_mono(st, cur, *rhs, log, f1);
            },
            Expr::Call(callee, args) => {
                lemma_eval_expr_mono(st, cur, *callee, log, f1);
                let (st1, r1) = sp_eval_expr(st, cur, *callee, log, f1);
                match r1 {
                    Ok(cv) => {
                        lemma_eval_args_mono(st1, cur, args@, log, f1);
                        let (st2, r2) = sp_eval_args(st1, cur, args@, log, f1);
                        if r2 is Ok {
                            match cv {
                                SValue::Callable(SCallee::User(sf)) => {
                                    lemma_call_function_mono(st2, sf, r2->Ok_0, log, f1);
                                },
                                _ => {},
                            }
                        }
                    },
                    Err(_) => {},
                }
            },
        }
    }
}

pub proof fn lemma_eval_args_mono(st: State, cur: int, args: Seq<Expr>, log: Seq<i64>, fuel: nat)
    ensures
        st.ticks.len() <= sp_eval_args(st, cur, args, log, fuel).0.ticks.len(),
    decreases fuel, args.len(),
{
    if args.len() != 0 && fuel != 0 {
        let f1 = (fuel - 1) as nat;
        lemma_eval_expr_mono(st, cur, args[0], log, f1);
        let (st1, r1) = sp_eval_expr(st, cur, args[0], log, f1);
        if r1 is Ok {
            lemma_eval_args_mono(st1, cur, args.drop_first(), log, fuel);
        }
    }
}

pub proof fn lemma_call_function_mono(
    st: State,
    f: SFunction,
    args: Seq<SValue>,
    log: Seq<i64>,
    fuel: nat,
)
    ensures
        st.ticks.len() <= sp_call_function(st, f, args, log, fuel).0.ticks.len(),
    decreases fuel, 0int,
{
    if fuel != 0 && args.len() == f.params.len() {
        let c = st.frames.len() as int;
        let st1 = State {
            frames: st.frames.push(
                crate::env::SFrame {
                    bindings: crate::state::bind_params(f.params, args),
                    enclosing: Some(f.closure),
                },
            ),
            ..st
        };
        lemma_exec_stmts_mono(st1, c, f.body, log, (fuel - 1) as nat);
    }
}

pub proof fn lemma_exec_stmt_mono(st: State, cur: int, s: Stmt, log: Seq<i64>, fuel: nat)
    ensures
        st.ticks.len() <= sp_exec_stmt(st, cur, s, log, fuel).0.ticks.len(),
    decreases fuel, 0int,
{
    if fuel != 0 {
        let f1 = (fuel - 1) as nat;
        match s {
            Stmt::Expression(e) => {
                lemma_eval_expr_mono(st, cur, e, log, f1);
            },
            Stmt::Print(e) => {
                lemma_eval_expr_mono(st, cur, e, log, f1);
            },
            Stmt::Var(_, init) => {
                match init {
                    Some(e) => {
                        lemma_eval_expr_mono(st, cur, e, log, f1);
                    },
                    None => {},
                }
            },
            Stmt::Block(body) => {
                let c = st.frames.len() as int;
                let st1 = State {
                    frames: st.frames.push(
                        crate::env::SFrame { bindings: Map::empty(), enclosing: Some(cur) },
                    ),
                    ..st
                };
                lemma_exec_stmts_mono(st1, c, body@, log, f1);
            },
            Stmt::If(cond, th, el) => {
                lemma_eval_expr_mono(st, cur, cond, log, f1);
                let (st1, r) = sp_eval_expr(st, cur, cond, log, f1);
                match r {
                    Ok(v) => {
                        if crate::value::truthy(v) {
                            lemma_exec_stmt_mono(st1, cur, *th, log, f1);
                        } else {
                            match el {
                                Some(es) => {
                                    lemma_exec_stmt_mono(st1, cur, *es, log, f1);
                                },
                                None => {},
                            }
                        }
                    },
                    Err(_) => {},
                }
            },
            Stmt::While(cond, body) => {
                lemma_eval_expr_mono(st, cur, cond, log, f1);
                let (st1, r) = sp_eval_expr(st, cur, cond, log, f1);
                match r {
                    Ok(v) => {
                        if crate::value::truthy(v) {
                            lemma_exec_stmt_mono(st1, cur, *body, log, f1);
                            let (st2, r2) = sp_exec_stmt(st1, cur, *body, log, f1);
                            if r2 == Ok::<SOutcome, crate::error::SError>(SOutcome::Normal) {
                                lemma_exec_stmt_mono(st2, cur, Stmt::While(cond, body), log, f1);
                            }
                        }
                    },
                    Err(_) => {},
                }
            },
            Stmt::Function(_, _, _) => {},
            Stmt::Return(opt) => {
                match opt {
                    Some(e) => {
                        lemma_eval_expr_mono(st, cur, e, log, f1);
                    },
                    None => {},
                }
            },
        }
    }
}

pub proof fn lemma_exec_stmts_mono(st: State, cur: int, ss: Seq<Stmt>, log: Seq<i64>, fuel: nat)
    ensures
        st.ticks.len() <= sp_exec_stmts(st, cur, ss, log, fuel).0.ticks.len(),
    decreases fuel, ss.len(),
{
    if ss.len() != 0 && fuel != 0 {
        let f1 = (fuel - 1) as nat;
        lemma_exec_stmt_mono(st, cur, ss[0], log, f1);
        let (st1, r1) = sp_exec_stmt(st, cur, ss[0], log, f1);
        if r1 == Ok::<SOutcome, crate::error::SError>(SOutcome::Normal) {
            lemma_exec_stmts_mono(st1, cur, ss.drop_first(), log, fuel);
        }
    }
}

pub proof fn lemma_eval_expr_extend(
    st: State,
    cur: int,
    e: Expr,
    log1: Seq<i64>,
    log2: Seq<i64>,
    fuel: nat,
)
    requires
        log1.is_prefix_of(log2),
        sp_eval_expr(st, cur, e, log1, fuel).0.ticks.len() <= log1.len(),
    ensures
        sp_eval_expr(st, cur, e, log2, fuel) == sp_eval_expr(st, cur, e, log1, fuel),
    decreases fuel, 0int,
{
    if fuel != 0 {
        let f1 = (fuel - 1) as nat;
        match e {
            Expr::Literal(_) => {},
            Expr::Variable(_) => {},
            Expr::Grouping(inner) => {
                lemma_eval_expr_extend(st, cur, *inner, log1, log2, f1);
            },
            Expr::Unary(_, inner) => {
                lemma_eval_expr_extend(st, cur, *inner, log1, log2, f1);
            },
            Expr::Binary(_, le, re) => {
                let (st1, r1) = sp_eval_expr(st, cur, *le, log1, f1);
                if r1 is Ok {
                    lemma_eval_expr_mono(st1, cur, *re, log1, f1);
                }
                lemma_eval_expr_extend(st, cur, *le, log1, log2, f1);
                if r1 is Ok {
                    lemma_eval_expr_extend(st1, cur, *re, log1, log2, f1);
                }
            },
            Expr::Assign(_, rhs) => {
                lemma_eval_expr_extend(st, cur, *rhs, log1, log2, f1);
            },
            Expr::Call(callee, args) => {
                let (st1, r1) = sp_eval_expr(st, cur, *callee, log1, f1);
                match r1 {
                    Ok(cv) => {
                        let (st2, r2) = sp_eval_args(st1, cur, args@, log1, f1);
                        match r2 {
                            Ok(vs) => {
                                match cv {
                                    SValue::Callable(SCallee::User(sf)) => {
                                        lemma_call_function_mono(st2, sf, vs, log1, f1);
                                        lemma_eval_args_mono(st1, cur, args@, log1, f1);
                                        lemma_eval_expr_extend(st, cur, *callee, log1, log2, f1);
                                        lemma_eval_args_extend(st1, cur, args@, log1, log2, f1);
                                        lemma_call_function_extend(st2, sf, vs, log1, log2, f1);
                                    },
                                    SValue::Callable(SCallee::Native) => {
                                        // the clock reads one entry within log1, so the
                                        // prefix agreement fixes its value
                                        lemma_eval_args_mono(st1, cur, args@, log1, f1);
                                        lemma_eval_expr_extend(st, cur, *callee, log1, log2, f1);
                                        lemma_eval_args_extend(st1, cur, args@, log1, log2, f1);
                                        if vs.len() == 0 {
                                            let pos = st2.ticks.len() as int;
                                            assert(log2.subrange(0, log1.len() as int) =~= log1);
                                            assert(pos < log1.len() ==> log2[pos] == log1[pos]);
                                        }
                                    },
                                    _ => {
                                        lemma_eval_args_mono(st1, cur, args@, log1, f1);
                                        lemma_eval_expr_extend(st, cur, *callee, log1, log2, f1);
                                        lemma_eval_args_extend(st1, cur, args@, log1, log2, f1);
                                    },
                                }
                            },
                            Err(_) => {
                                lemma_eval_args_mono(st1, cur, args@, log1, f1);
                                lemma_eval_expr_extend(st, cur, *callee, log1, log2, f1);
                                lemma_eval_args_extend(st1, cur, args@, log1, log2, f1);
                            },
                        }
                    },
                    Err(_) => {
                        lemma_eval_expr_extend(st, cur, *callee, log1, log2, f1);
                    },
                }
            },
        }
    }
}

pub proof fn lemma_eval_args_extend(
    st: State,
    cur: int,
    args: Seq<Expr>,
    log1: Seq<i64>,
    log2: Seq<i64>,
    fuel: nat,
)
    requires
        log1.is_prefix_of(log2),
        sp_eval_args(st, cur, args, log1, fuel).0.ticks.len() <= log1.len(),
    ensures
        sp_eval_args(st, cur, args, log2, fuel) == sp_eval_args(st, cur, args, log1, fuel),
    decreases fuel, args.len(),
{
    if args.len() != 0 && fuel != 0 {
        let f1 = (fuel - 1) as nat;
        let (st1, r1) = sp_eval_expr(st, cur, args[0], log1, f1);
        if r1 is Ok {
            lemma_eval_args_mono(st1, cur, args.drop_first(), log1, fuel);
        }
        lemma_eval_expr_extend(st, cur, args[0], log1, log2, f1);
        if r1 is Ok {
            lemma_eval_args_extend(st1, cur, args.drop_first(), log1, log2, fuel);
        }
    }
}

pub proof fn lemma_call_function_extend(
    st: State,
    f: SFunction,
    args: Seq<SValue>,
    log1: Seq<i64>,
    log2: Seq<i64>,
    fuel: nat,
)
    requires
        log1.is_prefix_of(log2),
        sp_call_function(st, f, args, log1, fuel).0.ticks.len() <= log1.len(),
    ensures
        sp_call_function(st, f, args, log2, fuel) == sp_call_function(st, f, args, log1, fuel),
    decreases fuel, 0int,
{
    if fuel != 0 && args.len() == f.params.len() {
        let c = st.frames.len() as int;
        let st1 = State {
            frames: st.frames.push(
                crate::env::SFrame {
                    bindings: crate::state::bind_params(f.params, args),
                    enclosing: Some(f.closure),
                },
            ),
            ..st
        };
        lemma_exec_stmts_extend(st1, c, f.body, log1, log2, (fuel - 1) as nat);
    }
}

pub proof fn lemma_exec_stmt_extend(
    st: State,
    cur: int,
    s: Stmt,
    log1: Seq<i64>,
    log2: Seq<i64>,
    fuel: nat,
)
    requires
        log1.is_prefix_of(log2),
        sp_exec_stmt(st, cur, s, log1, fuel).0.ticks.len() <= log1.len(),
    ensures
        sp_exec_stmt(st, cur, s, log2, fuel) == sp_exec_stmt(st, cur, s, log1, fuel),
    decreases fuel, 0int,
{
    if fuel != 0 {
        let f1 = (fuel - 1) as nat;
        match s {
            Stmt::Expression(e) => {
                lemma_eval_expr_extend(st, cur, e, log1, log2, f1);
            },
            Stmt::Print(e) => {
                lemma_eval_expr_extend(st, cur, e, log1, log2, f1);
            },
            Stmt::Var(_, init) => {
                match init {
                    Some(e) => {
                        lemma_eval_expr_extend(st, cur, e, log1, log2, f1);
                    },
                    None => {},
                }
            },
            Stmt::Block(body) => {
                let c = st.frames.len() as int;
                let st1 = State {
                    frames: st.frames.push(
                        crate::env::SFrame { bindings: Map::empty(), enclosing: Some(cur) },
                    ),
                    ..st
                };
                lemma_exec_stmts_extend(st1, c, body@, log1, log2, f1);
            },
            Stmt::If(cond, th, el) => {
                let (st1, r) = sp_eval_expr(st, cur, cond, log1, f1);
                match r {
                    Ok(v) => {
                        if crate::value::truthy(v) {
                            lemma_exec_stmt_mono(st1, cur, *th, log1, f1);
                            lemma_eval_expr_extend(st, cur, cond, log1, log2, f1);
                            lemma_exec_stmt_extend(st1, cur, *th, log1, log2, f1);
                        } else {
                            match el {
                                Some(es) => {
                                    lemma_exec_stmt_mono(st1, cur, *es, log1, f1);
                                    lemma_eval_expr_extend(st, cur, cond, log1, log2, f1);
                                    lemma_exec_stmt_extend(st1, cur, *es, log1, log2, f1);
                                },
                                None => {
                                    lemma_eval_expr_extend(st, cur, cond, log1, log2, f1);
                                },
                            }
                        }
                    },
                    Err(_) => {
                        lemma_eval_expr_extend(st, cur, cond, log1, log2, f1);
                    },
                }
            },
            Stmt::While(cond, body) => {
                let (st1, r) = sp_eval_expr(st, cur, cond, log1, f1);
                match r {
                    Ok(v) => {
                        if crate::value::truthy(v) {
                            let (st2, r2) = sp_exec_stmt(st1, cur, *body, log1, f1);
                            if r2 == Ok::<SOutcome, crate::error::SError>(SOutcome::Normal) {
                                lemma_exec_stmt_mono(st2, cur, Stmt::While(cond, body), log1, f1);
                            }
                            lemma_exec_stmt_mono(st1, cur, *body, log1, f1);
                            lemma_eval_expr_extend(st, cur, cond, log1, log2, f1);
                            lemma_exec_stmt_extend(st1, cur, *body, log1, log2, f1);
                            if r2 == Ok::<SOutcome, crate::error::SError>(SOutcome::Normal) {
                                lemma_exec_stmt_extend(
                                    st2,
                                    cur,
                                    Stmt::While(cond, body),
                                    log1,
                                    log2,
                                    f1,
                                );
                            }
                        } else {
                            lemma_eval_expr_extend(st, cur, cond, log1, log2, f1);
                        }
                    },
                    Err(_) => {
                        lemma_eval_expr_extend(st, cur, cond, log1, log2, f1);
                    },
                }
            },
            Stmt::Function(_, _, _) => {},
            Stmt::Return(opt) => {
                match opt {
                    Some(e) => {
                        lemma_eval_expr_extend(st, cur, e, log1, log2, f1);
                    },
                    None => {},
                }
            },
        }
    }
}

pub proof fn lemma_exec_stmts_extend(
    st: State,
    cur: int,
    ss: Seq<Stmt>,
    log1: Seq<i64>,
    log2: Seq<i64>,
    fuel: nat,
)
    requires
        log1.is_prefix_of(log2),
        sp_exec_stmts(st, cur, ss, log1, fuel).0.ticks.len() <= log1.len(),
    ensures
        sp_exec_stmts(st, cur, ss, log2, fuel) == sp_exec_stmts(st, cur, ss, log1, fuel),
    decreases fuel, ss.len(),
{
    if ss.len() != 0 && fuel != 0 {
        let f1 = (fuel - 1) as nat;
        let (st1, r1) = sp_exec_stmt(st, cur, ss[0], log1, f1);
        if r1 == Ok::<SOutcome, crate::error::SError>(SOutcome::Normal) {
            lemma_exec_stmts_mono(st1, cur, ss.drop_first(), log1, fuel);
        }
        lemma_exec_stmt_extend(st, cur, ss[0], log1, log2, f1);
        if r1 == Ok::<SOutcome, crate::error::SError>(SOutcome::Normal) {
            lemma_exec_stmts_extend(st1, cur, ss.drop_first(), log1, log2, fuel);
        }
    }
}

} // verus!
