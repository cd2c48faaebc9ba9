//! Evaluation-time errors.
//!
//! Every kind aborts the whole run at the point of occurrence; the toy
//! language has no user-level exception handling.

use crate::ast::{BinOp, UnOp};
use crate::value::{SValue, Value};
use std::rc::Rc;
use vstd::prelude::*;

verus! {

/// The operator named by a type mismatch.
#[derive(Clone, Copy, Debug)]
pub enum OpId {
    Bin(BinOp),
    Un(UnOp),
}

/// An error surfaced during evaluation.
#[derive(Debug)]
pub enum Error {
    /// Lookup of, or assignment to, a name no live frame defines.
    UndefinedVariable(String),
    /// A call whose argument count disagrees with the callable's arity.
    ArityMismatch { expected: usize, got: usize },
    /// A call expression whose callee is not callable.
    NotCallable(Rc<Value>),
    /// An operator applied to operands of incompatible types.
    TypeMismatch { op: OpId, operands: Vec<Rc<Value>> },
    /// Call depth exceeded the practical limit handed to the run.
    StackOverflow,
}

/// View of an error.
pub enum SError {
    UndefinedVariable(Seq<char>),
    ArityMismatch { expected: nat, got: nat },
    NotCallable(SValue),
    TypeMismatch { op: OpId, operands: Seq<SValue> },
    StackOverflow,
}

impl Error {
    pub open spec fn sview(&self) -> SError {
        match self {
            Error::UndefinedVariable(n) => SError::UndefinedVariable(n@),
            Error::ArityMismatch { expected, got } => SError::ArityMismatch {
                expected: *expected as nat,
                got: *got as nat,
            },
            Error::NotCallable(v) => SError::NotCallable(v.sview()),
            Error::TypeMismatch { op, operands } => SError::TypeMismatch {
                op: *op,
                operands: operands@.map_values(|v: Rc<Value>| v.sview()),
            },
            Error::StackOverflow => SError::StackOverflow,
        }
    }
}

} // verus!
