//! Call-graph discovery.
//!
//! Before any lowering, every distinct callee name with its arity is
//! collected over the whole program, so that forward and mutual references
//! can be pre-declared. A name observed with two different argument counts
//! anywhere is a conflict. The scan compares each site against the set
//! accumulated across the whole traversal, so a conflict between two
//! distant call sites is found, and the result carries each name once.

use vstd::prelude::*;
use crate::ast::{Block, Statement, Term};
use crate::error::{LowerError, LowerErrorV};
use crate::ir::{sigs_view, FuncSig, FuncSigV};

verus! {

/// The call sites of a term: callee name and arity, observed anywhere.
pub open spec fn term_sites(t: Term) -> Set<(Seq<char>, int)>
    decreases t, 0int, 0int,
{
    match t {
        Term::Literal(_) => Set::empty(),
        Term::Var(_) => Set::empty(),
        Term::Infix(l, _, r) => term_sites(*l).union(term_sites(*r)),
        Term::Call(name, args) => terms_sites(args@, 0).insert((name@, args@.len() as int)),
        Term::Scope(b) => block_sites(*b),
        Term::While(c, b) => term_sites(*c).union(block_sites(*b)),
    }
}

/// The call sites of the terms of `ts` from position `i` on.
pub open spec fn terms_sites(ts: Seq<Term>, i: int) -> Set<(Seq<char>, int)>
    decreases ts, ts.len() - i, 0int,
{
    if i < 0 || i >= ts.len() {
        Set::empty()
    } else {
        term_sites(ts[i]).union(terms_sites(ts, i + 1))
    }
}

/// The call sites of a statement's right-hand side.
pub open spec fn stmt_sites(s: Statement) -> Set<(Seq<char>, int)>
    decreases s, 0int, 0int,
{
    match s {
        Statement::TermSemicolon(t) => term_sites(t),
        Statement::Let(_, rhs) => term_sites(rhs),
        Statement::LetMut(_, rhs) => term_sites(rhs),
        Statement::Mutate(_, rhs) => term_sites(rhs),
    }
}

/// The call sites of the statements of `ss` from position `i` on.
pub open spec fn stmts_sites(ss: Seq<Statement>, i: int) -> Set<(Seq<char>, int)>
    decreases ss, ss.len() - i, 0int,
{
    if i < 0 || i >= ss.len() {
        Set::empty()
    } else {
        stmt_sites(ss[i]).union(stmts_sites(ss, i + 1))
    }
}

/// The call sites of a block.
pub open spec fn block_sites(b: Block) -> Set<(Seq<char>, int)>
    decreases b, 0int, 1int,
{
    stmts_sites(b.stmts@, 0).union(term_sites(*b.end))
}

/// Position of the first signature of `name` at or past `i`.
pub open spec fn sig_find_from(sigs: Seq<FuncSigV>, name: Seq<char>, i: int) -> Option<int>
    decreases sigs.len() - i,
{
    if i < 0 || i >= sigs.len() {
        None
    } else if sigs[i].name == name {
        Some(i)
    } else {
        sig_find_from(sigs, name, i + 1)
    }
}

/// Position of the first signature of `name`, if any.
pub open spec fn sig_find(sigs: Seq<FuncSigV>, name: Seq<char>) -> Option<int> {
    sig_find_from(sigs, name, 0)
}

/// The image of a signature vector commutes with appending.
proof fn lemma_sigs_view_push(s: Seq<FuncSig>, x: FuncSig)
    ensures
        sigs_view(s.push(x)) =~= sigs_view(s).push(x@),
{
    assert forall|k: int| 0 <= k < s.push(x).len() implies sigs_view(s.push(x))[k] == sigs_view(
        s,
    ).push(x@)[k] by {
        assert(sigs_view(s.push(x))[k] == s.push(x)[k]@);
        if k < s.len() {
            assert(sigs_view(s)[k] == s[k]@);
        }
    }
}

/// One observation of a call site against the accumulated table: a
/// conflicting arity fails, a known consistent site changes nothing, a new
/// name is appended.
pub open spec fn spec_note_site(
    acc: Seq<FuncSigV>,
    name: Seq<char>,
    arity: int,
) -> Result<Seq<FuncSigV>, LowerErrorV> {
    match sig_find(acc, name) {
        Some(i) => if acc[i].arity != arity {
            Err(LowerErrorV::ArityConflict(name))
        } else {
            Ok(acc)
        },
        None => Ok(acc.push(FuncSigV { name, arity })),
    }
}

/// The discovery walk over a term.
pub open spec fn spec_find_term(t: Term, acc: Seq<FuncSigV>) -> Result<
    Seq<FuncSigV>,
    LowerErrorV,
>
    decreases t, 0int, 0int,
{
    match t {
        Term::Literal(_) => Ok(acc),
        Term::Var(_) => Ok(acc),
        Term::Infix(l, _, r) => match spec_find_term(*l, acc) {
            Ok(a2) => spec_find_term(*r, a2),
            Err(e) => Err(e),
        },
        Term::Call(name, args) => match spec_note_site(acc, name@, args@.len() as int) {
            Ok(a2) => spec_find_terms(args@, 0, a2),
            Err(e) => Err(e),
        },
        Term::Scope(b) => spec_find_block(*b, acc),
        Term::While(c, b) => match spec_find_term(*c, acc) {
            Ok(a2) => spec_find_block(*b, a2),
            Err(e) => Err(e),
        },
    }
}

/// The discovery walk over the terms of `ts` from position `i` on.
pub open spec fn spec_find_terms(ts: Seq<Term>, i: int, acc: Seq<FuncSigV>) -> Result<
    Seq<FuncSigV>,
    LowerErrorV,
>
    decreases ts, ts.len() - i, 0int,
{
    if i < 0 || i >= ts.len() {
        Ok(acc)
    } else {
        match spec_find_term(ts[i], acc) {
            Ok(a2) => spec_find_terms(ts, i + 1, a2),
            Err(e) => Err(e),
        }
    }
}

/// The discovery walk over a statement.
pub open spec fn spec_find_stmt(s: Statement, acc: Seq<FuncSigV>) -> Result<
    Seq<FuncSigV>,
    LowerErrorV,
>
    decreases s, 0int, 0int,
{
    match s {
        Statement::TermSemicolon(t) => spec_find_term(t, acc),
        Statement::Let(_, rhs) => spec_find_term(rhs, acc),
        Statement::LetMut(_, rhs) => spec_find_term(rhs, acc),
        Statement::Mutate(_, rhs) => spec_find_term(rhs, acc),
    }
}

/// The discovery walk over the statements of `ss` from position `i` on.
pub open spec fn spec_find_stmts(ss: Seq<Statement>, i: int, acc: Seq<FuncSigV>) -> Result<
    Seq<FuncSigV>,
    LowerErrorV,
>
    decreases ss, ss.len() - i, 0int,
{
    if i < 0 || i >= ss.len() {
        Ok(acc)
    } else {
        match spec_find_stmt(ss[i], acc) {
            Ok(a2) => spec_find_stmts(ss, i + 1, a2),
            Err(e) => Err(e),
        }
    }
}

/// The discovery walk over a block.
pub open spec fn spec_find_block(b: Block, acc: Seq<FuncSigV>) -> Result<
    Seq<FuncSigV>,
    LowerErrorV,
>
    decreases b, 0int, 1int,
{
    match spec_find_stmts(b.stmts@, 0, acc) {
        Ok(a2) => spec_find_term(*b.end, a2),
        Err(e) => Err(e),
    }
}

/// Find the first signature of `name` in the table.
pub fn sig_scan(sigs: &Vec<FuncSig>, name: &String) -> (r: Option<usize>)
    ensures
        match r {
            Some(i) => sig_find(sigs_view(sigs@), name@) == Some(i as int) && i < sigs.len(),
            None => sig_find(sigs_view(sigs@), name@) is None,
        },
{
    let len = sigs.len();
    for i in 0..len
        invariant
            len == sigs.len(),
            sig_find(sigs_view(sigs@), name@) == sig_find_from(sigs_view(sigs@), name@, i as int),
    {
        proof {
            assert(sigs_view(sigs@)[i as int] == sigs@[i as int]@);
        }
        if sigs[i].name == *name {
            return Some(i);
        }
    }
    None
}

impl Term {
    /// Discover call sites, extending the accumulated table.
    fn find_funcs_into(&self, acc: Vec<FuncSig>) -> (r: Result<Vec<FuncSig>, LowerError>)
        ensures
            match r {
                Ok(v) => spec_find_term(*self, sigs_view(acc@)) == Ok::<_, LowerErrorV>(
                    sigs_view(v@),
                ),
                Err(e) => spec_find_term(*self, sigs_view(acc@)) == Err::<Seq<FuncSigV>, _>(e@),
            },
        decreases *self, 0int, 0int,
    {
        match self {
            Term::Literal(_) => Ok(acc),
            Term::Var(_) => Ok(acc),
            Term::Infix(l, _, r) => {
                let a2 = match l.find_funcs_into(acc) {
                    Ok(a2) => a2,
                    Err(e) => {
                        return Err(e);
                    }
                };
                r.find_funcs_into(a2)
            }
            Term::Call(name, args) => {
                let mut acc = acc;
                let ghost acc0 = sigs_view(acc@);
                match sig_scan(&acc, name) {
                    Some(i) => {
                        proof {
                            assert(sigs_view(acc@)[i as int] == acc@[i as int]@);
                        }
                        if acc[i].arity != args.len() {
                            proof {
                                assert(spec_note_site(acc0, name@, args@.len() as int)
                                    == Err::<Seq<FuncSigV>, _>(LowerErrorV::ArityConflict(name@)));
                            }
                            return Err(LowerError::ArityConflict(name.clone()));
                        }
                        proof {
                            assert(spec_note_site(acc0, name@, args@.len() as int)
                                == Ok::<_, LowerErrorV>(acc0));
                        }
                    }
                    None => {
                        let ghost prev = acc@;
                        let pushed = FuncSig { name: name.clone(), arity: args.len() };
                        acc.push(pushed);
                        proof {
                            lemma_sigs_view_push(prev, pushed);
                            assert(sigs_view(acc@) =~= acc0.push(
                                FuncSigV { name: name@, arity: args@.len() as int },
                            ));
                        }
                    }
                }
                let ghost a2 = sigs_view(acc@);
                proof {
                    assert(spec_note_site(acc0, name@, args@.len() as int) == Ok::<
                        _,
                        LowerErrorV,
                    >(a2));
                }
                let len = args.len();
                for i in 0..len
                    invariant
                        len == args.len(),
                        spec_note_site(acc0, name@, args@.len() as int) == Ok::<
                            _,
                            LowerErrorV,
                        >(a2),
                        spec_find_terms(args@, 0, a2) == spec_find_terms(
                            args@,
                            i as int,
                            sigs_view(acc@),
                        ),
                    decreases *self, 0int, len - i,
                {
                    proof {
                        assert(decreases_to!(*self => *args));
                        assert(decreases_to!(*args => args@));
                        assert(decreases_to!(args@ => args@[i as int]));
                        assert(decreases_to!(*self, 0int, 0int => args@[i as int], 0int, 0int));
                    }
                    let moved = acc;
                    match args[i].find_funcs_into(moved) {
                        Ok(a3) => {
                            acc = a3;
                        }
                        Err(e) => {
                            return Err(e);
                        }
                    }
                }
                Ok(acc)
            }
            Term::Scope(b) => b.find_funcs_into(acc),
            Term::While(c, b) => {
                let a2 = match c.find_funcs_into(acc) {
                    Ok(a2) => a2,
                    Err(e) => {
                        return Err(e);
                    }
                };
                b.find_funcs_into(a2)
            }
        }
    }

    /// Every distinct callee name with its arity, or the first arity
    /// conflict found.
    pub fn find_funcs(&self) -> (r: Result<Vec<FuncSig>, LowerError>)
        ensures
            match r {
                Ok(v) => spec_find_term(*self, Seq::empty()) == Ok::<_, LowerErrorV>(
                    sigs_view(v@),
                ),
                Err(e) => spec_find_term(*self, Seq::empty()) == Err::<Seq<FuncSigV>, _>(e@),
            },
    {
        let acc: Vec<FuncSig> = Vec::new();
        proof {
            assert(sigs_view(acc@) =~= Seq::<FuncSigV>::empty());
        }
        self.find_funcs_into(acc)
    }
}

impl Statement {
    /// Discover call sites, extending the accumulated table.
    fn find_funcs_into(&self, acc: Vec<FuncSig>) -> (r: Result<Vec<FuncSig>, LowerError>)
        ensures
            match r {
                Ok(v) => spec_find_stmt(*self, sigs_view(acc@)) == Ok::<_, LowerErrorV>(
                    sigs_view(v@),
                ),
                Err(e) => spec_find_stmt(*self, sigs_view(acc@)) == Err::<Seq<FuncSigV>, _>(e@),
            },
        decreases *self, 0int, 0int,
    {
        match self {
            Statement::TermSemicolon(t) => t.find_funcs_into(acc),
            Statement::Let(_, rhs) => rhs.find_funcs_into(acc),
            Statement::LetMut(_, rhs) => rhs.find_funcs_into(acc),
            Statement::Mutate(_, rhs) => rhs.find_funcs_into(acc),
        }
    }

    /// Every distinct callee name with its arity, or the first arity
    /// conflict found.
    pub fn find_funcs(&self) -> (r: Result<Vec<FuncSig>, LowerError>)
        ensures
            match r {
                Ok(v) => spec_find_stmt(*self, Seq::empty()) == Ok::<_, LowerErrorV>(
                    sigs_view(v@),
                ),
                Err(e) => spec_find_stmt(*self, Seq::empty()) == Err::<Seq<FuncSigV>, _>(e@),
            },
    {
        let acc: Vec<FuncSig> = Vec::new();
        proof {
            assert(sigs_view(acc@) =~= Seq::<FuncSigV>::empty());
        }
        self.find_funcs_into(acc)
    }
}

impl Block {
    /// Discover call sites, extending the accumulated table.
    fn find_funcs_into(&self, acc: Vec<FuncSig>) -> (r: Result<Vec<FuncSig>, LowerError>)
        ensures
            match r {
                Ok(v) => spec_find_block(*self, sigs_view(acc@)) == Ok::<_, LowerErrorV>(
                    sigs_view(v@),
                ),
                Err(e) => spec_find_block(*self, sigs_view(acc@)) == Err::<Seq<FuncSigV>, _>(e@),
            },
        decreases *self, 0int, 1int,
    {
        let mut acc = acc;
        let ghost a0 = sigs_view(acc@);
        let len = self.stmts.len();
        for i in 0..len
            invariant
                len == self.stmts.len(),
                spec_find_stmts(self.stmts@, 0, a0) == spec_find_stmts(
                    self.stmts@,
                    i as int,
                    sigs_view(acc@),
                ),
            decreases *self, 0int, len - i,
        {
            proof {
                assert(decreases_to!(*self => self.stmts));
                assert(decreases_to!(self.stmts => self.stmts@));
                assert(decreases_to!(self.stmts@ => self.stmts@[i as int]));
                assert(decreases_to!(*self, 0int, 1int => self.stmts@[i as int], 0int, 0int));
            }
            let moved = acc;
            match self.stmts[i].find_funcs_into(moved) {
                Ok(a2) => {
                    acc = a2;
                }
                Err(e) => {
                    return Err(e);
                }
            }
        }
        self.end.find_funcs_into(acc)
    }

    /// Every distinct callee name with its arity across the program, or
    /// the first arity conflict found.
    pub fn find_funcs(&self) -> (r: Result<Vec<FuncSig>, LowerError>)
        ensures
            match r {
                Ok(v) => spec_find_block(*self, Seq::empty()) == Ok::<_, LowerErrorV>(
                    sigs_view(v@),
                ),
                Err(e) => spec_find_block(*self, Seq::empty()) == Err::<Seq<FuncSigV>, _>(e@),
            },
    {
        let acc: Vec<FuncSig> = Vec::new();
        proof {
            assert(sigs_view(acc@) =~= Seq::<FuncSigV>::empty());
        }
        self.find_funcs_into(acc)
    }
}

} // verus!
