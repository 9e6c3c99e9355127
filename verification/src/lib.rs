//! The build core of a bytecode module runtime: per-module incremental
//! compilation decisions and whole-application dependency resolution.
//!
//! A module is a directory with a manifest and assembly sources; building
//! it means re-assembling the stale sources and linking the object files
//! into a shared-module image. An application build walks the transitive
//! dependency graph — local paths, Git repositories, registry lookups and
//! runtime built-ins — enforcing kind-legality rules, arbitrating
//! repeated modules by version, pruning modules no import chain reaches
//! any more, and emitting each survivor's run-time location.
//!
//! Everything that decides is here and verified: the path layout, the
//! staleness rule, the canonical-name derivation, the inline-config
//! scanner, and the resolver with its arbitration, pruning and emission.
//! Reading directories, decoding manifests, fetching repositories and
//! invoking the assembler, linker and execution engine are the caller's
//! side of the contract.

pub mod builder;
pub mod common;
pub mod entry;
pub mod fetcher;
pub mod hash;
pub mod locations;
pub mod resolver;
pub mod runner;
pub mod source_scanner;
pub mod text;
pub mod version;

use vstd::prelude::*;

verus! {

/// The single error kind at the library boundary: every failure is
/// reported as a human-readable message.
#[derive(Debug, Clone, PartialEq)]
pub enum RuntimeError {
    Message(String),
}

impl RuntimeError {
    /// The message carried by this error.
    pub fn message(&self) -> (r: &String)
        ensures
            self is Message ==> r@ == self->Message_0@,
    {
        match self {
            RuntimeError::Message(m) => m,
        }
    }
}

} // verus!
