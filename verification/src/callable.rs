//! Callables: one contract over the closed set of invocable kinds.
//!
//! The two variants are the host-provided clock and user-declared
//! functions. Each implementation fixes, through `call_post`, exactly
//! what one invocation does to the evaluator's state.

use crate::error::{Error, SError};
use crate::interp::{res_opt_view, steps_ok, Interpreter};
use crate::state::{sp_call_clock, sp_call_function, State};
use crate::value::{sval_wf, Clock, Function, SValue, Value};
use std::rc::Rc;
use vstd::prelude::*;
use vstd::string::StringExecFns;

verus! {

/// A callable capability: a fixed arity and an invocation that drives
/// the evaluator.
pub trait Callable {
    /// The declared argument count.
    spec fn spec_arity(&self) -> nat;

    /// When the callable may be invoked against a state.
    spec fn valid(&self, st: State) -> bool;

    /// What one invocation guarantees: the relation between the state
    /// before, the arguments, the fuel, the state after and the result.
    spec fn call_post(
        &self,
        pre: State,
        args: Seq<SValue>,
        fuel: nat,
        post: State,
        r: Result<Option<SValue>, SError>,
    ) -> bool;

    /// The required number of arguments.
    fn arity(&self) -> (n: usize)
        ensures
            n as nat == self.spec_arity(),
    ;

    /// Invoke with the given arguments; an argument count different from
    /// the arity fails without running anything.
    fn call(&self, interpreter: &mut Interpreter, arguments: Vec<Rc<Value>>, fuel: u64) -> (r:
        Result<Option<Rc<Value>>, Error>)
        requires
            old(interpreter).wf(),
            self.valid(old(interpreter)@),
            forall|k: int|
                0 <= k < arguments@.len() ==> sval_wf(
                    #[trigger] arguments@[k].sview(),
                    old(interpreter)@.frames.len() as int,
                ),
        ensures
            steps_ok(old(interpreter)@, final(interpreter)@),
            self.call_post(
                old(interpreter)@,
                arguments@.map_values(|v: Rc<Value>| v.sview()),
                fuel as nat,
                final(interpreter)@,
                res_opt_view(r),
            ),
    ;
}

impl Callable for Clock {
    open spec fn spec_arity(&self) -> nat {
        0
    }

    open spec fn valid(&self, st: State) -> bool {
        true
    }

    open spec fn call_post(
        &self,
        pre: State,
        args: Seq<SValue>,
        fuel: nat,
        post: State,
        r: Result<Option<SValue>, SError>,
    ) -> bool {
        let (p2, rr) = sp_call_clock(pre, args.len(), post.ticks);
        match rr {
            Ok(v) => post == p2 && r == Ok::<Option<SValue>, SError>(Some(v)),
            Err(e) => post == p2 && r == Err::<Option<SValue>, SError>(e),
        }
    }

    fn arity(&self) -> (n: usize) {
        0
    }

    fn call(&self, interpreter: &mut Interpreter, arguments: Vec<Rc<Value>>, fuel: u64) -> (r:
        Result<Option<Rc<Value>>, Error>) {
        match interpreter.native_clock(arguments.len()) {
            Ok(v) => Ok(Some(v)),
            Err(e) => Err(e),
        }
    }
}

impl Callable for Function {
    open spec fn spec_arity(&self) -> nat {
        self.params@.len() as nat
    }

    open spec fn valid(&self, st: State) -> bool {
        (self.closure as int) < st.frames.len()
    }

    open spec fn call_post(
        &self,
        pre: State,
        args: Seq<SValue>,
        fuel: nat,
        post: State,
        r: Result<Option<SValue>, SError>,
    ) -> bool {
        (post, r) == sp_call_function(pre, self.sview(), args, post.ticks, fuel)
    }

    fn arity(&self) -> (n: usize) {
        self.params.len()
    }

    fn call(&self, interpreter: &mut Interpreter, arguments: Vec<Rc<Value>>, fuel: u64) -> (r:
        Result<Option<Rc<Value>>, Error>) {
        interpreter.call_function(self, arguments, fuel)
    }
}

impl Clock {
    /// The textual rendering of the native function value.
    pub fn to_text(&self) -> (r: String)
        ensures
            r@ == "<native fn>"@,
    {
        "<native fn>".to_owned()
    }
}

impl Function {
    /// The textual rendering of a function value: its declared name.
    pub fn to_text(&self) -> (r: String)
        ensures
            r@ == "<fn "@ + self.name@ + ">"@,
    {
        let mut text = "<fn ".to_owned();
        text.append(self.name.as_str());
        text.append(">");
        proof {
            assert(text@ =~= "<fn "@ + self.name@ + ">"@);
        }
        text
    }
}

} // verus!
