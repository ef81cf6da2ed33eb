//! The errors lowering can report.

use vstd::prelude::*;

verus! {

/// Why lowering rejected a program. Within expression, statement, block
/// and loop lowering the first failure aborts the subtree; the module
/// scaffolding aggregates the failures of its independent steps.
#[derive(Debug, Clone, PartialEq, Eq)]
pub enum LowerError {
    /// A variable reference did not resolve in the environment.
    UndeclaredVariable(String),
    /// A `Mutate` targeted an immutable (`Unboxed`) binding.
    ImmutableAssignment(String),
    /// A call site's callee was missing from the declaration table.
    UndeclaredFunction(String),
    /// One function name was observed with two different arities.
    ArityConflict(String),
    /// A `Let` right-hand side did not lower to a known integer constant.
    NonConstantLet(String),
    /// A declared name cannot be represented by the backend's naming
    /// constraints.
    IdentifierEncodingError(String),
}

/// Mathematical image of a lowering error.
pub enum LowerErrorV {
    UndeclaredVariable(Seq<char>),
    ImmutableAssignment(Seq<char>),
    UndeclaredFunction(Seq<char>),
    ArityConflict(Seq<char>),
    NonConstantLet(Seq<char>),
    IdentifierEncodingError(Seq<char>),
}

impl View for LowerError {
    type V = LowerErrorV;

    open spec fn view(&self) -> LowerErrorV {
        match *self {
            LowerError::UndeclaredVariable(ref n) => LowerErrorV::UndeclaredVariable(n@),
            LowerError::ImmutableAssignment(ref n) => LowerErrorV::ImmutableAssignment(n@),
            LowerError::UndeclaredFunction(ref n) => LowerErrorV::UndeclaredFunction(n@),
            LowerError::ArityConflict(ref n) => LowerErrorV::ArityConflict(n@),
            LowerError::NonConstantLet(ref n) => LowerErrorV::NonConstantLet(n@),
            LowerError::IdentifierEncodingError(ref n) => LowerErrorV::IdentifierEncodingError(n@),
        }
    }
}

} // verus!
