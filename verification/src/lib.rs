//! Evaluation core of a small dynamically typed scripting language:
//! lexically scoped frames, closures that share mutable bindings, and an
//! explicit return signal threaded through statement execution.

pub mod ast;
pub mod callable;
pub mod env;
pub mod error;
pub mod interp;
pub mod laws;
pub mod render;
pub mod stability;
pub mod state;
pub mod value;
