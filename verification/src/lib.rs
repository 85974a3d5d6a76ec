//! A binding generator core: walks already-parsed foreign-function-interface
//! declarations (constants, type aliases, enums, `repr(C)` structs and
//! `extern "C"` functions), normalizes their types into a small intermediate
//! type algebra, resolves aliases, infers which aggregates are pointer-backed
//! ("native"), detects structural conventions (array pointer/length pairs,
//! callbacks with a context parameter) and emits declarations for two target
//! languages.

use vstd::prelude::*;

pub mod ast;
pub mod common;
pub mod csharp;
pub mod intermediate;
pub mod java;
pub mod jni;
pub mod naming;
pub mod patterns;
pub mod strutil;
pub mod table;

verus! {

/// Severity of a reported diagnostic.
#[derive(Clone, Copy, PartialEq, Eq, Structural, Debug)]
pub enum Level {
    /// A hard failure: the whole run is aborted.
    Error,
    /// An advisory diagnostic that does not abort the run.
    Warning,
    /// An internal invariant was broken by the caller.
    Bug,
}

/// A diagnostic attached to a source location.
#[derive(Debug)]
pub struct Error {
    /// How severe the diagnostic is.
    pub level: Level,
    /// Source location of the offending declaration, when known.
    pub span: Option<u64>,
    /// Human-readable description.
    pub message: String,
}

} // verus!
