//! Compilation errors.

use vstd::prelude::*;

verus! {

/// What can go wrong while compiling a module: the emitted representation
/// was rejected by the verifier, with its diagnostic.
#[derive(Debug)]
pub enum JitError {
    ModuleVerify(String),
}

impl JitError {
    /// The diagnostic carried by the error.
    pub fn message(&self) -> (r: String)
        ensures
            self matches JitError::ModuleVerify(m) && r@ == m@,
    {
        match self {
            JitError::ModuleVerify(m) => String::clone(m),
        }
    }
}

} // verus!
