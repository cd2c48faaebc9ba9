//! Runtime values and their mathematical views.
//!
//! A value is immutable once constructed; frames rebind names to new
//! values, they never change a value in place. Values are passed around
//! behind `Rc`, so duplicating one shares it instead of copying the tree.
//!
//! Contracts never speak of the executable types directly: each carries a
//! view (`SValue`, `SCallee`, `SFunction`) over sequences and plain values,
//! and every contract of the crate is stated over those.

use crate::ast::Stmt;
use std::rc::Rc;
use vstd::prelude::*;

verus! {

/// The host-provided clock, a native callable of arity 0.
#[derive(Debug)]
pub struct Clock;

/// A user-declared function: its declaration data plus the index of the
/// scope frame that was active at its declaration (its closure).
///
/// Copies of this value share `params` and `body`, and all of them refer
/// to the one captured frame through `closure`, so every copy observes
/// the same bindings.
#[derive(Debug)]
pub struct Function {
    pub name: String,
    pub params: Rc<Vec<String>>,
    pub body: Rc<Vec<Stmt>>,
    pub closure: usize,
}

/// The closed set of callable kinds.
#[derive(Debug)]
pub enum Callee {
    Native(Clock),
    User(Function),
}

/// A runtime value.
#[derive(Debug)]
pub enum Value {
    Nil,
    Bool(bool),
    Num(i64),
    Str(String),
    Callable(Callee),
}

/// View of a user function.
pub struct SFunction {
    pub name: Seq<char>,
    pub params: Seq<Seq<char>>,
    pub body: Seq<Stmt>,
    pub closure: int,
}

/// View of a callable.
pub enum SCallee {
    Native,
    User(SFunction),
}

/// View of a runtime value.
pub enum SValue {
    Nil,
    Bool(bool),
    Num(i64),
    Str(Seq<char>),
    Callable(SCallee),
}

impl Function {
    pub open spec fn sview(&self) -> SFunction {
        SFunction {
            name: self.name@,
            params: self.params@.map_values(|p: String| p@),
            body: self.body@,
            closure: self.closure as int,
        }
    }
}

impl Value {
    pub open spec fn sview(&self) -> SValue {
        match self {
            Value::Nil => SValue::Nil,
            Value::Bool(b) => SValue::Bool(*b),
            Value::Num(n) => SValue::Num(*n),
            Value::Str(s) => SValue::Str(s@),
            Value::Callable(Callee::Native(_)) => SValue::Callable(SCallee::Native),
            Value::Callable(Callee::User(f)) => SValue::Callable(SCallee::User(f.sview())),
        }
    }
}

/// A value is meaningful only while every frame it refers to exists:
/// a function value must point at a frame below the arena's length.
pub open spec fn sval_wf(v: SValue, n_frames: int) -> bool {
    match v {
        SValue::Callable(SCallee::User(f)) => 0 <= f.closure < n_frames,
        _ => true,
    }
}

/// Truthiness: `nil` and `false` are the only falsey values.
pub open spec fn truthy(v: SValue) -> bool {
    !(v == SValue::Nil || v == SValue::Bool(false))
}

/// Duplicate a shared value handle.
///
/// Relies on `Rc::clone`: the returned handle refers to the very same
/// inner value as the argument.
#[verifier::external_body]
pub(crate) fn rc_dup<T>(v: &Rc<T>) -> (r: Rc<T>)
    ensures
        r == *v,
{
    Rc::clone(v)
}

} // verus!
