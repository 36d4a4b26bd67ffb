use vstd::prelude::*;
use crate::env::Env;
use crate::env::Scope;

verus! {

/// What can go wrong while lowering or compiling.
#[derive(Clone, Debug)]
pub enum Error {
    /// A reference was requested of a value that is itself a reference.
    CannotReferenceAReference,
    /// A call named a function that neither table holds.
    FunctionNotDefined(String),
    /// A name was looked up that the current scope does not bind. Carries the
    /// name and a snapshot of that scope.
    VariableNotDefined(String, Env),
    /// A call handed over a number of arguments other than the callee's
    /// number of parameters. Carries the two numbers, parameters first.
    ArityMismatch(usize, usize),
    /// A call would nest frames deeper than the context allows.
    CallDepthExceeded,
}

/// The mathematical content of an [`Error`].
pub enum Failure {
    CannotReferenceAReference,
    FunctionNotDefined(Seq<char>),
    VariableNotDefined(Seq<char>, Scope),
    ArityMismatch(usize, usize),
    CallDepthExceeded,
}

impl View for Error {
    type V = Failure;

    open spec fn view(&self) -> Failure {
        match self {
            Error::CannotReferenceAReference => Failure::CannotReferenceAReference,
            Error::FunctionNotDefined(name) => Failure::FunctionNotDefined(name@),
            Error::VariableNotDefined(name, env) => Failure::VariableNotDefined(name@, env@),
            Error::ArityMismatch(parameters, arguments) => Failure::ArityMismatch(
                *parameters,
                *arguments,
            ),
            Error::CallDepthExceeded => Failure::CallDepthExceeded,
        }
    }
}

/// A result with its error replaced by the error's view.
pub open spec fn outcome<T>(r: Result<T, Error>) -> Result<T, Failure> {
    match r {
        Ok(v) => Ok(v),
        Err(e) => Err(e@),
    }
}

} // verus!
