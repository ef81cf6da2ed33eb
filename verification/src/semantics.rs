//! A reference semantics for the immutable-arithmetic fragment.
//!
//! Programs built from literals, variable reads, arithmetic and immutable
//! bindings have an evident meaning: a reference interpreter over an
//! integer environment. The straight-line value semantics gives constant
//! and arithmetic instructions of the produced body their meaning, so the
//! correctness of lowering such a program is a statement about the
//! produced module alone.

use vstd::prelude::*;
use crate::ast::{Block, Statement, Term};
use crate::ir::{op_eval, InstV};

verus! {

/// Terms of the fragment: literals, reads and arithmetic.
pub open spec fn arith_term(t: Term) -> bool
    decreases t,
{
    match t {
        Term::Literal(_) => true,
        Term::Var(_) => true,
        Term::Infix(l, _, r) => arith_term(*l) && arith_term(*r),
        _ => false,
    }
}

/// Statements of the fragment: effect-free expressions and immutable
/// bindings.
pub open spec fn arith_stmt(s: Statement) -> bool {
    match s {
        Statement::TermSemicolon(t) => arith_term(t),
        Statement::Let(_, rhs) => arith_term(rhs),
        _ => false,
    }
}

/// Whether every statement from position `i` on is in the fragment.
pub open spec fn arith_stmts(ss: Seq<Statement>, i: int) -> bool
    decreases ss.len() - i,
{
    if i < 0 || i >= ss.len() {
        true
    } else {
        arith_stmt(ss[i]) && arith_stmts(ss, i + 1)
    }
}

/// Programs of the fragment.
pub open spec fn arith_block(b: Block) -> bool {
    arith_stmts(b.stmts@, 0) && arith_term(*b.end)
}

/// The reference interpreter over one expression: machine integers with
/// wrapping arithmetic, `None` on an unbound name or an undefined
/// division.
pub open spec fn interp_term(t: Term, env: Map<Seq<char>, i32>) -> Option<i32>
    decreases t,
{
    match t {
        Term::Literal(i) => Some(i),
        Term::Var(n) => if env.contains_key(n@) {
            Some(env[n@])
        } else {
            None
        },
        Term::Infix(l, op, r) => match (interp_term(*l, env), interp_term(*r, env)) {
            (Some(a), Some(c)) => op_eval(op, a, c),
            _ => None,
        },
        _ => None,
    }
}

/// The reference interpreter over one statement.
pub open spec fn interp_stmt(s: Statement, env: Map<Seq<char>, i32>) -> Option<
    Map<Seq<char>, i32>,
> {
    match s {
        Statement::TermSemicolon(t) => match interp_term(t, env) {
            Some(_) => Some(env),
            None => None,
        },
        Statement::Let(n, rhs) => match interp_term(rhs, env) {
            Some(v) => Some(env.insert(n@, v)),
            None => None,
        },
        _ => None,
    }
}

/// The reference interpreter over the statements from position `i` on.
pub open spec fn interp_stmts(ss: Seq<Statement>, i: int, env: Map<Seq<char>, i32>) -> Option<
    Map<Seq<char>, i32>,
>
    decreases ss.len() - i,
{
    if i < 0 || i >= ss.len() {
        Some(env)
    } else {
        match interp_stmt(ss[i], env) {
            Some(env2) => interp_stmts(ss, i + 1, env2),
            None => None,
        }
    }
}

/// The reference interpreter over a program: the statements in order,
/// then the trailing expression.
pub open spec fn interp_block(b: Block, env: Map<Seq<char>, i32>) -> Option<i32> {
    match interp_stmts(b.stmts@, 0, env) {
        Some(env2) => interp_term(*b.end, env2),
        None => None,
    }
}

/// The straight-line value semantics of the produced body: what a value
/// evaluates to, defined for constant and arithmetic instructions, whose
/// operands always name earlier values.
pub open spec fn eval_value(insts: Seq<InstV>, v: int) -> Option<i32>
    decreases v,
{
    if 0 <= v < insts.len() {
        match insts[v] {
            InstV::ConstInt(i) => Some(i),
            InstV::Bin(op, a, c) => if 0 <= a < v && 0 <= c < v {
                match (eval_value(insts, a), eval_value(insts, c)) {
                    (Some(x), Some(y)) => op_eval(op, x, y),
                    _ => None,
                }
            } else {
                None
            },
            _ => None,
        }
    } else {
        None
    }
}

/// Evaluation only reads instructions at or below the value's name, so
/// appending instructions never changes it.
pub proof fn lemma_eval_value_stable(i1: Seq<InstV>, i2: Seq<InstV>, v: int)
    requires
        i1.len() <= i2.len(),
        forall|k: int| 0 <= k < i1.len() ==> i1[k] == i2[k],
        0 <= v < i1.len(),
    ensures
        eval_value(i2, v) == eval_value(i1, v),
    decreases v,
{
    match i1[v] {
        InstV::Bin(_, a, c) => {
            if 0 <= a < v && 0 <= c < v {
                lemma_eval_value_stable(i1, i2, a);
                lemma_eval_value_stable(i1, i2, c);
            }
        },
        _ => {},
    }
}

} // verus!
