//! The abstract syntax tree handed to the lowering engine.
//!
//! The tree is produced by a parser and is read-only during lowering: the
//! whole language is expression-oriented, a block's value is the value of
//! its trailing expression.

use vstd::prelude::*;

verus! {

/// The four integer operators of the language.
#[derive(Clone, Copy, Debug, PartialEq, Eq)]
pub enum Operator {
    Add,
    Sub,
    Mul,
    Div,
}

/// An expression node.
#[derive(Debug, PartialEq, Eq)]
pub enum Term {
    /// An integer constant.
    Literal(i32),
    /// A read of a variable.
    Var(String),
    /// A binary arithmetic expression.
    Infix(Box<Term>, Operator, Box<Term>),
    /// A call of a user function: callee name and arguments.
    Call(String, Vec<Term>),
    /// A nested block; bindings made inside do not escape.
    Scope(Box<Block>),
    /// A while loop: condition and body. Its own value is the constant 0.
    While(Box<Term>, Box<Block>),
}

/// A statement node.
#[derive(Debug, PartialEq, Eq)]
pub enum Statement {
    /// An expression evaluated for effect; its value is discarded.
    TermSemicolon(Term),
    /// An immutable binding; the right-hand side must lower to a value
    /// known as an integer constant at bind time.
    Let(String, Term),
    /// A mutable binding, backed by an addressable cell.
    LetMut(String, Term),
    /// An assignment into an existing mutable binding.
    Mutate(String, Term),
}

/// An ordered statement sequence with a trailing expression whose value is
/// the block's result.
#[derive(Debug, PartialEq, Eq)]
pub struct Block {
    pub stmts: Vec<Statement>,
    pub end: Box<Term>,
}

} // verus!
