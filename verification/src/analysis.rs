//! Free-variable analysis.
//!
//! `rhs_vars` computes the set of variable names a node reads. It is used
//! only to select the merge-point candidates of a loop: a loop header
//! merges exactly the bound names the loop condition reads.

use vstd::prelude::*;
use crate::ast::{Block, Statement, Term};

verus! {

/// The names a term reads.
pub open spec fn term_vars(t: Term) -> Set<Seq<char>>
    decreases t, 0int, 0int,
{
    match t {
        Term::Literal(_) => Set::empty(),
        Term::Var(name) => Set::empty().insert(name@),
        Term::Infix(l, _, r) => term_vars(*l).union(term_vars(*r)),
        Term::Call(_, args) => terms_vars(args@, 0),
        Term::Scope(b) => block_vars(*b),
        Term::While(c, b) => term_vars(*c).union(block_vars(*b)),
    }
}

/// The names read by the terms of `ts` from position `i` on.
pub open spec fn terms_vars(ts: Seq<Term>, i: int) -> Set<Seq<char>>
    decreases ts, ts.len() - i, 0int,
{
    if i < 0 || i >= ts.len() {
        Set::empty()
    } else {
        term_vars(ts[i]).union(terms_vars(ts, i + 1))
    }
}

/// The names a statement's right-hand side reads.
pub open spec fn stmt_vars(s: Statement) -> Set<Seq<char>>
    decreases s, 0int, 0int,
{
    match s {
        Statement::TermSemicolon(t) => term_vars(t),
        Statement::Let(_, rhs) => term_vars(rhs),
        Statement::LetMut(_, rhs) => term_vars(rhs),
        Statement::Mutate(_, rhs) => term_vars(rhs),
    }
}

/// The names read by the statements of `ss` from position `i` on.
pub open spec fn stmts_vars(ss: Seq<Statement>, i: int) -> Set<Seq<char>>
    decreases ss, ss.len() - i, 0int,
{
    if i < 0 || i >= ss.len() {
        Set::empty()
    } else {
        stmt_vars(ss[i]).union(stmts_vars(ss, i + 1))
    }
}

/// The names a block reads: every statement's right-hand side and the
/// trailing expression.
pub open spec fn block_vars(b: Block) -> Set<Seq<char>>
    decreases b, 0int, 1int,
{
    stmts_vars(b.stmts@, 0).union(term_vars(*b.end))
}

/// Whether some element of `names` views to `n`.
pub open spec fn names_has(names: Seq<String>, n: Seq<char>) -> bool {
    exists|i: int| 0 <= i < names.len() && names[i]@ == n
}

/// The set of names a vector of strings denotes.
pub open spec fn names_set(names: Seq<String>) -> Set<Seq<char>> {
    Set::new(|n: Seq<char>| names_has(names, n))
}

/// Concatenation denotes the union of the two halves.
proof fn lemma_names_concat(a: Seq<String>, b: Seq<String>)
    ensures
        names_set(a + b) == names_set(a).union(names_set(b)),
{
    assert forall|n: Seq<char>|
        names_set(a + b).contains(n) <==> names_set(a).union(names_set(b)).contains(n) by {
        if names_has(a + b, n) {
            let i = choose|i: int| 0 <= i < (a + b).len() && (a + b)[i]@ == n;
            if i < a.len() {
                assert(a[i]@ == n);
            } else {
                assert(b[i - a.len()]@ == n);
            }
        }
        if names_has(a, n) {
            let i = choose|i: int| 0 <= i < a.len() && a[i]@ == n;
            assert((a + b)[i]@ == n);
        }
        if names_has(b, n) {
            let i = choose|i: int| 0 <= i < b.len() && b[i]@ == n;
            assert((a + b)[a.len() + i]@ == n);
        }
    }
    assert(names_set(a + b) =~= names_set(a).union(names_set(b)));
}

/// The empty vector denotes the empty set.
proof fn lemma_names_empty(names: Seq<String>)
    requires
        names.len() == 0,
    ensures
        names_set(names) == Set::<Seq<char>>::empty(),
{
    assert(names_set(names) =~= Set::<Seq<char>>::empty());
}

/// A one-element vector denotes a one-element set.
proof fn lemma_names_single(names: Seq<String>, n: Seq<char>)
    requires
        names.len() == 1,
        names[0]@ == n,
    ensures
        names_set(names) == Set::<Seq<char>>::empty().insert(n),
{
    assert forall|m: Seq<char>|
        names_set(names).contains(m) <==> Set::<Seq<char>>::empty().insert(n).contains(m) by {
        if names_has(names, m) {
            let i = choose|i: int| 0 <= i < names.len() && names[i]@ == m;
            assert(i == 0);
        }
        if m == n {
            assert(names[0]@ == m);
        }
    }
    assert(names_set(names) =~= Set::<Seq<char>>::empty().insert(n));
}

/// Decide whether `n` occurs among `names`.
pub fn names_contain(names: &Vec<String>, n: &String) -> (r: bool)
    ensures
        r == names_set(names@).contains(n@),
{
    let len = names.len();
    let mut i: usize = 0;
    while i < len
        invariant
            len == names.len(),
            i <= len,
            forall|k: int| 0 <= k < i ==> names[k]@ != n@,
        decreases len - i,
    {
        if names[i] == *n {
            assert(names@[i as int]@ == n@);
            return true;
        }
        i = i + 1;
    }
    assert(!names_has(names@, n@));
    false
}

impl Term {
    /// The variable names this term reads, as a vector: its contract is
    /// the set it denotes; order and duplication are irrelevant.
    pub fn rhs_vars(&self) -> (r: Vec<String>)
        ensures
            names_set(r@) == term_vars(*self),
        decreases *self, 0int, 0int,
    {
        match self {
            Term::Literal(_) => {
                let r: Vec<String> = Vec::new();
                proof {
                    lemma_names_empty(r@);
                }
                r
            }
            Term::Var(name) => {
                let mut r: Vec<String> = Vec::new();
                r.push(name.clone());
                proof {
                    lemma_names_single(r@, name@);
                }
                r
            }
            Term::Infix(l, _, r) => {
                let mut left = l.rhs_vars();
                let mut right = r.rhs_vars();
                let ghost lv = left@;
                let ghost rv = right@;
                left.append(&mut right);
                proof {
                    lemma_names_concat(lv, rv);
                }
                left
            }
            Term::Call(_, args) => {
                let mut acc: Vec<String> = Vec::new();
                proof {
                    lemma_names_empty(acc@);
                    assert(names_set(acc@).union(terms_vars(args@, 0)) =~= terms_vars(args@, 0));
                }
                let len = args.len();
                let mut i: usize = 0;
                while i < len
                    invariant
                        len == args.len(),
                        i <= len,
                        names_set(acc@).union(terms_vars(args@, i as int)) == terms_vars(
                            args@,
                            0,
                        ),
                    decreases len - i,
                {
                    proof {
                        assert(decreases_to!(*self => *args));
                        assert(decreases_to!(*args => args@));
                        assert(decreases_to!(args@ => args@[i as int]));
                        assert(decreases_to!(*self, 0int, 0int => args@[i as int], 0int, 0int));
                    }
                    let mut av = args[i].rhs_vars();
                    let ghost a0 = acc@;
                    let ghost avv = av@;
                    acc.append(&mut av);
                    proof {
                        lemma_names_concat(a0, avv);
                        assert(names_set(acc@).union(terms_vars(args@, i as int + 1)) =~= names_set(
                            a0,
                        ).union(terms_vars(args@, i as int)));
                    }
                    i = i + 1;
                }
                proof {
                    assert(names_set(acc@).union(Set::<Seq<char>>::empty()) =~= names_set(acc@));
                }
                acc
            }
            Term::Scope(b) => b.rhs_vars(),
            Term::While(c, b) => {
                let mut cv = c.rhs_vars();
                let mut bv = b.rhs_vars();
                let ghost cvv = cv@;
                let ghost bvv = bv@;
                cv.append(&mut bv);
                proof {
                    lemma_names_concat(cvv, bvv);
                }
                cv
            }
        }
    }
}

impl Statement {
    /// The variable names this statement's right-hand side reads.
    pub fn rhs_vars(&self) -> (r: Vec<String>)
        ensures
            names_set(r@) == stmt_vars(*self),
        decreases *self, 0int, 0int,
    {
        match self {
            Statement::TermSemicolon(t) => t.rhs_vars(),
            Statement::Let(_, rhs) => rhs.rhs_vars(),
            Statement::LetMut(_, rhs) => rhs.rhs_vars(),
            Statement::Mutate(_, rhs) => rhs.rhs_vars(),
        }
    }
}

impl Block {
    /// The variable names this block reads.
    pub fn rhs_vars(&self) -> (r: Vec<String>)
        ensures
            names_set(r@) == block_vars(*self),
        decreases *self, 0int, 1int,
    {
        let mut acc: Vec<String> = Vec::new();
        proof {
            lemma_names_empty(acc@);
            assert(names_set(acc@).union(stmts_vars(self.stmts@, 0)) =~= stmts_vars(
                self.stmts@,
                0,
            ));
        }
        let len = self.stmts.len();
        let mut i: usize = 0;
        while i < len
            invariant
                len == self.stmts.len(),
                i <= len,
                names_set(acc@).union(stmts_vars(self.stmts@, i as int)) == stmts_vars(
                    self.stmts@,
                    0,
                ),
            decreases len - i,
        {
            proof {
                assert(decreases_to!(*self => self.stmts));
                assert(decreases_to!(self.stmts => self.stmts@));
                assert(decreases_to!(self.stmts@ => self.stmts@[i as int]));
                assert(decreases_to!(*self, 0int, 1int => self.stmts@[i as int], 0int, 0int));
            }
            let mut sv = self.stmts[i].rhs_vars();
            let ghost a0 = acc@;
            let ghost svv = sv@;
            acc.append(&mut sv);
            proof {
                lemma_names_concat(a0, svv);
                assert(names_set(acc@).union(stmts_vars(self.stmts@, i as int + 1)) =~= names_set(
                    a0,
                ).union(stmts_vars(self.stmts@, i as int)));
            }
            i = i + 1;
        }
        let mut ev = self.end.rhs_vars();
        let ghost a0 = acc@;
        let ghost evv = ev@;
        acc.append(&mut ev);
        proof {
            lemma_names_concat(a0, evv);
        }
        acc
    }
}

} // verus!
