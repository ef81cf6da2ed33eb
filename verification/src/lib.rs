//! Lowering of a small expression-oriented imperative language into a
//! static-single-assignment intermediate representation.
//!
//! The crate models the IR as plain data (`ir::Module`), so the whole
//! pipeline — free-variable analysis, call-graph discovery, the persistent
//! symbol environment, and expression / statement / loop lowering — is
//! verified. A finished module is handed to an external emitter.
#![verifier::loop_isolation(false)]

pub mod analysis;
pub mod ast;
pub mod callgraph;
pub mod env;
pub mod error;
pub mod ir;
pub mod laws;
pub mod lower;
pub mod semantics;
