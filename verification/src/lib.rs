//! A just-in-time compiler for a TypeScript-flavored source language.
//!
//! The pipeline lowers an abstract syntax tree into an intermediate
//! representation whose instructions call into a runtime of reference-counted
//! dynamic values, and executes that representation against a module-global
//! namespace. Every module the builder finishes passes the representation
//! verifier, and every basic block it emits carries exactly one terminator.

use vstd::prelude::*;

pub mod ast;
pub mod builder;
pub mod engine;
pub mod error;
pub mod ir;
pub mod laws;
pub mod machine;
pub mod module;
pub mod num;
pub mod runtime;
pub mod text;

pub use builder::Builder;
pub use error::JitError;
pub use module::Module;
pub use runtime::Runtime;

verus! {

} // verus!
