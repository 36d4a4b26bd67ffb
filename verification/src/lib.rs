//! Execution core of a small compiled language.
//!
//! A program is a list of functions over a tiny statement and expression
//! language. Lowering an expression yields a [`value::Value`], a handle on
//! storage of the target [`value::Machine`]; compiling a statement acts on the
//! current scope and on the machine, which also records the operations emitted
//! for the target. Calls build a frame, run the callee and tear the frame down.

pub mod value;
pub mod error;
pub mod env;
pub mod names;
pub mod ast;
pub mod registry;
pub mod context;
pub mod semantics;
pub mod compile;
pub mod laws;
pub mod source;
