//! The lowering engine.
//!
//! Expressions, statements and blocks are translated by recursive descent,
//! threading the persistent environment strictly in statement order. A
//! while loop is built in two phases: the loop header's merge points are
//! created with a pending latch edge, the body is lowered against the
//! merged environment, and each pending edge is then patched with the
//! value the post-body environment holds for that name.
//!
//! Every function mirrors a specification function over the mathematical
//! images, so the produced module is a function of the program alone.

use vstd::prelude::*;
use crate::analysis::term_vars;
use crate::ast::{Block, Statement, Term};
use crate::callgraph::{sig_find, sig_scan, spec_find_block};
use crate::env::{env_bind, env_lookup, Env, EnvEntryV, Levity};
use crate::error::{LowerError, LowerErrorV};
use crate::ir::{
    bv_const_of, bv_new, bv_new_block, bv_patch, bv_position, bv_push, bv_wf, fold_const,
    ints_view, sigs_view, Builder, BuilderV, FuncSig, FuncSigV, Inst, InstV, Module, ModuleV,
};
use vstd::string::StrSliceExecFns;

verus! {

/// One created merge point: the name it merges and the value it defines.
pub struct PhiRec {
    pub name: String,
    pub phi: usize,
}

impl View for PhiRec {
    type V = (Seq<char>, int);

    open spec fn view(&self) -> (Seq<char>, int) {
        (self.name@, self.phi as int)
    }
}

/// The image of a vector of merge-point records.
pub open spec fn phis_view(s: Seq<PhiRec>) -> Seq<(Seq<char>, int)> {
    s.map_values(|p: PhiRec| p@)
}

/// The image of a vector of value names commutes with appending.
proof fn lemma_ints_view_push(s: Seq<usize>, x: usize)
    ensures
        ints_view(s.push(x)) =~= ints_view(s).push(x as int),
{
    assert forall|k: int| 0 <= k < s.push(x).len() implies ints_view(s.push(x))[k] == ints_view(
        s,
    ).push(x as int)[k] by {
        assert(ints_view(s.push(x))[k] == s.push(x)[k] as int);
        if k < s.len() {
            assert(ints_view(s)[k] == s[k] as int);
        }
    }
}

/// The image of a vector of merge-point records commutes with appending.
proof fn lemma_phis_view_push(s: Seq<PhiRec>, x: PhiRec)
    ensures
        phis_view(s.push(x)) =~= phis_view(s).push(x@),
{
    assert forall|k: int| 0 <= k < s.push(x).len() implies phis_view(s.push(x))[k] == phis_view(
        s,
    ).push(x@)[k] by {
        assert(phis_view(s.push(x))[k] == s.push(x)[k]@);
        if k < s.len() {
            assert(phis_view(s)[k] == s[k]@);
        }
    }
}

/// The merge points of a loop header: one for every bound name the loop
/// condition reads, in environment order, each with the preheader edge
/// filled and the latch edge pending; yields the builder, the merged
/// environment and the created records.
pub open spec fn spec_make_phis(
    entries: Seq<EnvEntryV>,
    i: int,
    vars: Set<Seq<char>>,
    pre_block: int,
    lb: int,
    b: BuilderV,
    merged: Seq<EnvEntryV>,
    phis: Seq<(Seq<char>, int)>,
) -> (BuilderV, Seq<EnvEntryV>, Seq<(Seq<char>, int)>)
    decreases entries.len() - i,
{
    if i < 0 || i >= entries.len() {
        (b, merged, phis)
    } else {
        let e = entries[i];
        if vars.contains(e.name) {
            let (b2, phi) = bv_push(
                b,
                InstV::Phi { pre_val: e.val, pre_block, latch_val: None, latch_block: lb },
                None,
            );
            spec_make_phis(
                entries,
                i + 1,
                vars,
                pre_block,
                lb,
                b2,
                env_bind(merged, e.name, phi, e.lev),
                phis.push((e.name, phi)),
            )
        } else {
            spec_make_phis(entries, i + 1, vars, pre_block, lb, b, merged, phis)
        }
    }
}

/// Patching the pending latch edges: each merge point receives the value
/// the post-body environment holds for its name.
pub open spec fn spec_patch_phis(
    phis: Seq<(Seq<char>, int)>,
    i: int,
    post_env: Seq<EnvEntryV>,
    b: BuilderV,
) -> BuilderV
    decreases phis.len() - i,
{
    if i < 0 || i >= phis.len() {
        b
    } else {
        let (name, phi) = phis[i];
        match env_lookup(post_env, name) {
            Some((v, _)) => spec_patch_phis(phis, i + 1, post_env, bv_patch(b, phi, v)),
            None => spec_patch_phis(phis, i + 1, post_env, b),
        }
    }
}

/// Lowering one expression against an environment snapshot.
pub open spec fn spec_build_term(
    t: Term,
    table: Seq<FuncSigV>,
    env: Seq<EnvEntryV>,
    b: BuilderV,
) -> (BuilderV, Result<int, LowerErrorV>)
    decreases t, 0int,
{
    match t {
        Term::Literal(i) => {
            let (b2, v) = bv_push(b, InstV::ConstInt(i), Some(i));
            (b2, Ok(v))
        },
        Term::Var(name) => match env_lookup(env, name@) {
            Some((v, Levity::Boxed)) => {
                let (b2, l) = bv_push(b, InstV::Load(v), None);
                (b2, Ok(l))
            },
            Some((v, Levity::Unboxed(_))) => (b, Ok(v)),
            None => (b, Err(LowerErrorV::UndeclaredVariable(name@))),
        },
        Term::Infix(l, op, r) => {
            let (b1, r1) = spec_build_term(*l, table, env, b);
            match r1 {
                Ok(a) => {
                    let (b2, r2) = spec_build_term(*r, table, env, b1);
                    match r2 {
                        Ok(c) => {
                            let (b3, v) = bv_push(
                                b2,
                                InstV::Bin(op, a, c),
                                fold_const(b2, op, a, c),
                            );
                            (b3, Ok(v))
                        },
                        Err(e) => (b2, Err(e)),
                    }
                },
                Err(e) => (b1, Err(e)),
            }
        },
        Term::Call(name, args) => match sig_find(table, name@) {
            None => (b, Err(LowerErrorV::UndeclaredFunction(name@))),
            Some(i) => if table[i].arity != args@.len() as int {
                (b, Err(LowerErrorV::ArityConflict(name@)))
            } else {
                let (b1, r1) = spec_build_args(args@, 0, table, env, b, Seq::empty());
                match r1 {
                    Ok(vals) => {
                        let (b2, v) = bv_push(b1, InstV::Call(name@, vals), None);
                        (b2, Ok(v))
                    },
                    Err(e) => (b1, Err(e)),
                }
            },
        },
        Term::Scope(blk) => {
            let (b1, r1) = spec_build_block(*blk, table, env, b);
            match r1 {
                Ok((_, v)) => (b1, Ok(v)),
                Err(e) => (b1, Err(e)),
            }
        },
        Term::While(c, blk) => {
            let (b1, r1) = spec_build_term(*c, table, env, b);
            match r1 {
                Err(e) => (b1, Err(e)),
                Ok(cv) => {
                    let (b2, z) = bv_push(b1, InstV::ConstInt(0), Some(0));
                    let (b3, isz) = bv_push(b2, InstV::IcmpEq(cv, z), None);
                    let pre = b3.cur;
                    let (b4, lb) = bv_new_block(b3);
                    let (b5, ab) = bv_new_block(b4);
                    let (b6, _br) = bv_push(b5, InstV::CondBr(isz, ab, lb), None);
                    let b7 = bv_position(b6, lb);
                    let (b8, merged, phis) = spec_make_phis(
                        env,
                        0,
                        term_vars(*c),
                        pre,
                        lb,
                        b7,
                        env,
                        Seq::empty(),
                    );
                    let (b9, r9) = spec_build_block(*blk, table, merged, b8);
                    match r9 {
                        Err(e) => (b9, Err(e)),
                        Ok((post_env, _bodyval)) => {
                            let b10 = spec_patch_phis(phis, 0, post_env, b9);
                            let (b11, r11) = spec_build_term(*c, table, post_env, b10);
                            match r11 {
                                Err(e) => (b11, Err(e)),
                                Ok(cv2) => {
                                    let (b12, isz2) = bv_push(b11, InstV::IcmpEq(cv2, z), None);
                                    let (b13, _br2) = bv_push(
                                        b12,
                                        InstV::CondBr(isz2, ab, lb),
                                        None,
                                    );
                                    let b14 = bv_position(b13, ab);
                                    (b14, Ok(z))
                                },
                            }
                        },
                    }
                },
            }
        },
    }
}

/// Lowering the arguments of a call in order, short-circuiting on the
/// first failure.
pub open spec fn spec_build_args(
    ts: Seq<Term>,
    i: int,
    table: Seq<FuncSigV>,
    env: Seq<EnvEntryV>,
    b: BuilderV,
    vals: Seq<int>,
) -> (BuilderV, Result<Seq<int>, LowerErrorV>)
    decreases ts, ts.len() - i,
{
    if i < 0 || i >= ts.len() {
        (b, Ok(vals))
    } else {
        let (b1, r1) = spec_build_term(ts[i], table, env, b);
        match r1 {
            Ok(v) => spec_build_args(ts, i + 1, table, env, b1, vals.push(v)),
            Err(e) => (b1, Err(e)),
        }
    }
}

/// Lowering one statement: the environment it yields is consumed by the
/// next statement.
pub open spec fn spec_build_stmt(
    s: Statement,
    table: Seq<FuncSigV>,
    env: Seq<EnvEntryV>,
    b: BuilderV,
) -> (BuilderV, Result<Seq<EnvEntryV>, LowerErrorV>)
    decreases s, 0int,
{
    match s {
        Statement::TermSemicolon(t) => {
            let (b1, r1) = spec_build_term(t, table, env, b);
            match r1 {
                Ok(_) => (b1, Ok(env)),
                Err(e) => (b1, Err(e)),
            }
        },
        Statement::Let(name, rhs) => {
            let (b1, r1) = spec_build_term(rhs, table, env, b);
            match r1 {
                Ok(v) => match bv_const_of(b1, v) {
                    Some(c) => (b1, Ok(env_bind(env, name@, v, Levity::Unboxed(c)))),
                    None => (b1, Err(LowerErrorV::NonConstantLet(name@))),
                },
                Err(e) => (b1, Err(e)),
            }
        },
        Statement::LetMut(name, rhs) => {
            let (b1, cell) = bv_push(b, InstV::Alloca, None);
            let (b2, r2) = spec_build_term(rhs, table, env, b1);
            match r2 {
                Ok(v) => {
                    let (b3, _st) = bv_push(b2, InstV::Store(v, cell), None);
                    (b3, Ok(env_bind(env, name@, cell, Levity::Boxed)))
                },
                Err(e) => (b2, Err(e)),
            }
        },
        Statement::Mutate(name, rhs) => match env_lookup(env, name@) {
            None => (b, Err(LowerErrorV::UndeclaredVariable(name@))),
            Some((_, Levity::Unboxed(_))) => (b, Err(LowerErrorV::ImmutableAssignment(name@))),
            Some((cell, Levity::Boxed)) => {
                let (b1, r1) = spec_build_term(rhs, table, env, b);
                match r1 {
                    Ok(v) => {
                        let (b2, _st) = bv_push(b1, InstV::Store(v, cell), None);
                        (b2, Ok(env))
                    },
                    Err(e) => (b1, Err(e)),
                }
            },
        },
    }
}

/// Lowering the statements of `ss` from position `i` on, threading the
/// environment strictly in order.
pub open spec fn spec_build_stmts(
    ss: Seq<Statement>,
    i: int,
    table: Seq<FuncSigV>,
    env: Seq<EnvEntryV>,
    b: BuilderV,
) -> (BuilderV, Result<Seq<EnvEntryV>, LowerErrorV>)
    decreases ss, ss.len() - i,
{
    if i < 0 || i >= ss.len() {
        (b, Ok(env))
    } else {
        let (b1, r1) = spec_build_stmt(ss[i], table, env, b);
        match r1 {
            Ok(env2) => spec_build_stmts(ss, i + 1, table, env2, b1),
            Err(e) => (b1, Err(e)),
        }
    }
}

/// Lowering a block: the statements in order, then the trailing
/// expression against the final environment; yields that environment and
/// the block's value.
pub open spec fn spec_build_block(
    blk: Block,
    table: Seq<FuncSigV>,
    env: Seq<EnvEntryV>,
    b: BuilderV,
) -> (BuilderV, Result<(Seq<EnvEntryV>, int), LowerErrorV>)
    decreases blk, 1int,
{
    let (b1, r1) = spec_build_stmts(blk.stmts@, 0, table, env, b);
    match r1 {
        Ok(env2) => {
            let (b2, r2) = spec_build_term(*blk.end, table, env2, b1);
            match r2 {
                Ok(v) => (b2, Ok((env2, v))),
                Err(e) => (b2, Err(e)),
            }
        },
        Err(e) => (b1, Err(e)),
    }
}

/// Whether the backend can carry a name: its text holds no NUL character.
pub open spec fn name_encodable(n: Seq<char>) -> bool {
    forall|k: int| 0 <= k < n.len() ==> n[k] != '\0'
}

/// Validation of the declared names from position `i` on: the first name
/// the backend cannot carry fails.
pub open spec fn spec_validate(sigs: Seq<FuncSigV>, i: int) -> Result<(), LowerErrorV>
    decreases sigs.len() - i,
{
    if i < 0 || i >= sigs.len() {
        Ok(())
    } else if !name_encodable(sigs[i].name) {
        Err(LowerErrorV::IdentifierEncodingError(sigs[i].name))
    } else {
        spec_validate(sigs, i + 1)
    }
}

/// The declaration step: discovery over the whole program, then each
/// name checked against the backend's constraints.
pub open spec fn spec_decl_funcs(p: Block) -> Result<Seq<FuncSigV>, LowerErrorV> {
    match spec_find_block(p, Seq::empty()) {
        Ok(sigs) => match spec_validate(sigs, 0) {
            Ok(_) => Ok(sigs),
            Err(e) => Err(e),
        },
        Err(e) => Err(e),
    }
}

/// Building the entry function's body: the program against a fresh empty
/// environment, its value returned.
pub open spec fn spec_init(p: Block, table: Seq<FuncSigV>, b: BuilderV) -> (
    BuilderV,
    Result<int, LowerErrorV>,
) {
    let (b1, r1) = spec_build_block(p, table, Seq::empty(), b);
    match r1 {
        Ok((_, v)) => {
            let (b2, _r) = bv_push(b1, InstV::Ret(v), None);
            (b2, Ok(v))
        },
        Err(e) => (b1, Err(e)),
    }
}

/// The whole pipeline: declarations, then the entry function, the
/// failures of the two steps aggregated.
pub open spec fn spec_gen_module(p: Block) -> Result<ModuleV, Seq<LowerErrorV>> {
    let fr = spec_decl_funcs(p);
    let table = match fr {
        Ok(t) => t,
        Err(_) => Seq::empty(),
    };
    let (b1, r1) = spec_init(p, table, bv_new());
    match (fr, r1) {
        (Ok(t), Ok(v)) => Ok(ModuleV { decls: t, body: b1, ret: v }),
        (Err(e), Ok(_)) => Err(seq![e]),
        (Ok(_), Err(e)) => Err(seq![e]),
        (Err(e1), Err(e2)) => Err(seq![e1, e2]),
    }
}

/// The image of a vector of errors.
pub open spec fn errs_view(s: Seq<LowerError>) -> Seq<LowerErrorV> {
    s.map_values(|e: LowerError| e@)
}

/// Whether the backend can carry this name.
fn name_ok(s: &String) -> (r: bool)
    ensures
        r == name_encodable(s@),
{
    let text = s.as_str();
    let len = text.unicode_len();
    let mut i: usize = 0;
    while i < len
        invariant
            len == s@.len(),
            i <= len,
            text@ == s@,
            forall|k: int| 0 <= k < i ==> s@[k] != '\0',
        decreases len - i,
    {
        if text.get_char(i) == '\0' {
            return false;
        }
        i = i + 1;
    }
    true
}

impl Term {
    /// A fresh empty environment for lowering to start from.
    pub fn new_env() -> (r: Env)
        ensures
            r@ == Seq::<EnvEntryV>::empty(),
    {
        Env::new()
    }

    /// Lower this expression against `env`, appending at the builder's
    /// position; the result names the expression's value.
    #[verifier::rlimit(100)]
    pub fn build(&self, table: &Vec<FuncSig>, env: &Env, b: &mut Builder) -> (r: Result<
        usize,
        LowerError,
    >)
        requires
            bv_wf(old(b)@),
        ensures
            bv_wf(final(b)@),
            old(b)@.n_blocks <= final(b)@.n_blocks,
            ({
                let (b2, r2) = spec_build_term(*self, sigs_view(table@), env@, old(b)@);
                final(b)@ == b2 && (match r {
                    Ok(v) => r2 == Ok::<int, LowerErrorV>(v as int),
                    Err(e) => r2 == Err::<int, LowerErrorV>(e@),
                })
            }),
        decreases *self, 0int,
    {
        match self {
            Term::Literal(i) => {
                let v = b.push_inst(Inst::ConstInt(*i), Some(*i));
                Ok(v)
            }
            Term::Var(name) => match env.lookup(name) {
                Some((v, Levity::Boxed)) => {
                    let l = b.push_inst(Inst::Load(v), None);
                    Ok(l)
                }
                Some((v, Levity::Unboxed(_))) => Ok(v),
                None => Err(LowerError::UndeclaredVariable(name.clone())),
            },
            Term::Infix(l, op, r) => {
                let a = match l.build(table, env, b) {
                    Ok(v) => v,
                    Err(e) => {
                        return Err(e);
                    }
                };
                let c = match r.build(table, env, b) {
                    Ok(v) => v,
                    Err(e) => {
                        return Err(e);
                    }
                };
                let ca = b.const_of(a);
                let cc = b.const_of(c);
                let folded = match (ca, cc) {
                    (Some(x), Some(y)) => crate::ir::op_fold(*op, x, y),
                    _ => None,
                };
                let v = b.push_inst(Inst::Bin(*op, a, c), folded);
                Ok(v)
            }
            Term::Call(name, args) => {
                let sig = match sig_scan(table, name) {
                    Some(i) => i,
                    None => {
                        return Err(LowerError::UndeclaredFunction(name.clone()));
                    }
                };
                proof {
                    assert(sigs_view(table@)[sig as int] == table@[sig as int]@);
                }
                if table[sig].arity != args.len() {
                    return Err(LowerError::ArityConflict(name.clone()));
                }
                let ghost tbl = sigs_view(table@);
                let ghost b0 = b@;
                let mut vals: Vec<usize> = Vec::new();
                proof {
                    assert(ints_view(vals@) =~= Seq::<int>::empty());
                }
                let len = args.len();
                let mut i: usize = 0;
                while i < len
                    invariant
                        len == args.len(),
                        i <= len,
                        bv_wf(b@),
                        old(b)@.n_blocks <= b@.n_blocks,
                        spec_build_args(args@, 0, tbl, env@, b0, Seq::empty())
                            == spec_build_args(args@, i as int, tbl, env@, b@, ints_view(vals@)),
                    decreases len - i,
                {
                    proof {
                        assert(decreases_to!(*self => *args));
                        assert(decreases_to!(*args => args@));
                        assert(decreases_to!(args@ => args@[i as int]));
                        assert(decreases_to!(*self, 0int => args@[i as int], 0int));
                    }
                    let ghost vals0 = vals@;
                    match args[i].build(table, env, b) {
                        Ok(v) => {
                            vals.push(v);
                            proof {
                                lemma_ints_view_push(vals0, v);
                            }
                        }
                        Err(e) => {
                            return Err(e);
                        }
                    }
                    i = i + 1;
                }
                let v = b.push_inst(Inst::Call(name.clone(), vals), None);
                Ok(v)
            }
            Term::Scope(blk) => {
                let forked = env.duplicate();
                match blk.build(table, b, forked) {
                    Ok((_, v)) => Ok(v),
                    Err(e) => Err(e),
                }
            }
            Term::While(c, blk) => {
                let cv = match c.build(table, env, b) {
                    Ok(v) => v,
                    Err(e) => {
                        return Err(e);
                    }
                };
                let z = b.push_inst(Inst::ConstInt(0), Some(0));
                let isz = b.push_inst(Inst::IcmpEq(cv, z), None);
                let pre = b.cur;
                let lb = b.new_block();
                let ab = b.new_block();
                let _br: usize = b.push_inst(Inst::CondBr(isz, ab, lb), None);
                b.position_at(lb);
                let vars = c.rhs_vars();
                let ghost vset = term_vars(**c);
                let mut merged = env.duplicate();
                let mut phis: Vec<PhiRec> = Vec::new();
                let ghost bp0 = b@;
                proof {
                    assert(phis_view(phis@) =~= Seq::<(Seq<char>, int)>::empty());
                }
                let n = env.entries.len();
                let mut i: usize = 0;
                while i < n
                    invariant
                        n == env.entries.len(),
                        i <= n,
                        bv_wf(b@),
                        old(b)@.n_blocks <= b@.n_blocks,
                        (lb as int) < b@.n_blocks,
                        (ab as int) < b@.n_blocks,
                        spec_make_phis(env@, 0, vset, pre as int, lb as int, bp0, env@, Seq::empty())
                            == spec_make_phis(
                            env@,
                            i as int,
                            vset,
                            pre as int,
                            lb as int,
                            b@,
                            merged@,
                            phis_view(phis@),
                        ),
                    decreases n - i,
                {
                    proof {
                        assert(env@[i as int] == env.entries@[i as int]@);
                    }
                    let entry = &env.entries[i];
                    if names_contain_vars(&vars, &entry.name, Ghost(vset)) {
                        let phi = b.push_inst(
                            Inst::Phi {
                                pre_val: entry.val,
                                pre_block: pre,
                                latch_val: None,
                                latch_block: lb,
                            },
                            None,
                        );
                        let m2 = merged.bind(&entry.name, phi, entry.lev);
                        merged = m2;
                        let ghost phis0 = phis@;
                        phis.push(PhiRec { name: entry.name.clone(), phi });
                        proof {
                            lemma_phis_view_push(phis0, phis@[phis@.len() - 1]);
                            assert(phis@[phis@.len() - 1]@ == (entry.name@, phi as int));
                        }
                    }
                    i = i + 1;
                }
                let (post_env, _bodyval) = match blk.build(table, b, merged) {
                    Ok(pair) => pair,
                    Err(e) => {
                        return Err(e);
                    }
                };
                let ghost bq0 = b@;
                let m = phis.len();
                let mut j: usize = 0;
                while j < m
                    invariant
                        m == phis.len(),
                        j <= m,
                        bv_wf(b@),
                        old(b)@.n_blocks <= b@.n_blocks,
                        (lb as int) < b@.n_blocks,
                        (ab as int) < b@.n_blocks,
                        spec_patch_phis(phis_view(phis@), 0, post_env@, bq0) == spec_patch_phis(
                            phis_view(phis@),
                            j as int,
                            post_env@,
                            b@,
                        ),
                    decreases m - j,
                {
                    proof {
                        assert(phis_view(phis@)[j as int] == phis@[j as int]@);
                    }
                    let rec = &phis[j];
                    match post_env.lookup(&rec.name) {
                        Some((v, _)) => {
                            b.patch_phi(rec.phi, v);
                        }
                        None => {}
                    }
                    j = j + 1;
                }
                let cv2 = match c.build(table, &post_env, b) {
                    Ok(v) => v,
                    Err(e) => {
                        return Err(e);
                    }
                };
                let isz2 = b.push_inst(Inst::IcmpEq(cv2, z), None);
                let _br2: usize = b.push_inst(Inst::CondBr(isz2, ab, lb), None);
                b.position_at(ab);
                Ok(z)
            }
        }
    }
}

/// Decide membership of a name among the condition's variables, carrying
/// the set it denotes.
fn names_contain_vars(names: &Vec<String>, n: &String, vars: Ghost<Set<Seq<char>>>) -> (r: bool)
    requires
        crate::analysis::names_set(names@) == vars@,
    ensures
        r == vars@.contains(n@),
{
    crate::analysis::names_contain(names, n)
}

impl Statement {
    /// Lower this statement: the environment it yields is what the next
    /// statement consumes.
    #[verifier::rlimit(50)]
    pub fn build(&self, table: &Vec<FuncSig>, env: Env, b: &mut Builder) -> (r: Result<
        Env,
        LowerError,
    >)
        requires
            bv_wf(old(b)@),
        ensures
            bv_wf(final(b)@),
            old(b)@.n_blocks <= final(b)@.n_blocks,
            ({
                let (b2, r2) = spec_build_stmt(*self, sigs_view(table@), env@, old(b)@);
                final(b)@ == b2 && (match r {
                    Ok(env2) => r2 == Ok::<Seq<EnvEntryV>, LowerErrorV>(env2@),
                    Err(e) => r2 == Err::<Seq<EnvEntryV>, LowerErrorV>(e@),
                })
            }),
        decreases *self, 0int,
    {
        match self {
            Statement::TermSemicolon(t) => {
                match t.build(table, &env, b) {
                    Ok(_) => Ok(env),
                    Err(e) => Err(e),
                }
            }
            Statement::Let(lhs, rhs) => {
                let v = match rhs.build(table, &env, b) {
                    Ok(v) => v,
                    Err(e) => {
                        return Err(e);
                    }
                };
                match b.const_of(v) {
                    Some(c) => Ok(env.bind(lhs, v, Levity::Unboxed(c))),
                    None => Err(LowerError::NonConstantLet(lhs.clone())),
                }
            }
            Statement::LetMut(lhs, rhs) => {
                let cell = b.push_inst(Inst::Alloca, None);
                let v = match rhs.build(table, &env, b) {
                    Ok(v) => v,
                    Err(e) => {
                        return Err(e);
                    }
                };
                let _st: usize = b.push_inst(Inst::Store(v, cell), None);
                Ok(env.bind(lhs, cell, Levity::Boxed))
            }
            Statement::Mutate(lhs, rhs) => {
                let cell = match env.lookup(lhs) {
                    None => {
                        return Err(LowerError::UndeclaredVariable(lhs.clone()));
                    }
                    Some((_, Levity::Unboxed(_))) => {
                        return Err(LowerError::ImmutableAssignment(lhs.clone()));
                    }
                    Some((cell, Levity::Boxed)) => cell,
                };
                let v = match rhs.build(table, &env, b) {
                    Ok(v) => v,
                    Err(e) => {
                        return Err(e);
                    }
                };
                let _st: usize = b.push_inst(Inst::Store(v, cell), None);
                Ok(env)
            }
        }
    }
}

impl Block {
    /// A fresh empty environment for lowering to start from.
    pub fn new_env() -> (r: Env)
        ensures
            r@ == Seq::<EnvEntryV>::empty(),
    {
        Env::new()
    }

    /// Lower this block: its statements in order, then the trailing
    /// expression; yields the final environment and the block's value.
    #[verifier::rlimit(50)]
    pub fn build(&self, table: &Vec<FuncSig>, b: &mut Builder, env: Env) -> (r: Result<
        (Env, usize),
        LowerError,
    >)
        requires
            bv_wf(old(b)@),
        ensures
            bv_wf(final(b)@),
            old(b)@.n_blocks <= final(b)@.n_blocks,
            ({
                let (b2, r2) = spec_build_block(*self, sigs_view(table@), env@, old(b)@);
                final(b)@ == b2 && (match r {
                    Ok((env2, v)) => r2 == Ok::<(Seq<EnvEntryV>, int), LowerErrorV>(
                        (env2@, v as int),
                    ),
                    Err(e) => r2 == Err::<(Seq<EnvEntryV>, int), LowerErrorV>(e@),
                })
            }),
        decreases *self, 1int,
    {
        let ghost tbl = sigs_view(table@);
        let ghost env0 = env@;
        let ghost b0 = b@;
        let mut env = env;
        let len = self.stmts.len();
        let mut i: usize = 0;
        while i < len
            invariant
                len == self.stmts.len(),
                i <= len,
                bv_wf(b@),
                old(b)@.n_blocks <= b@.n_blocks,
                spec_build_stmts(self.stmts@, 0, tbl, env0, b0) == spec_build_stmts(
                    self.stmts@,
                    i as int,
                    tbl,
                    env@,
                    b@,
                ),
            decreases len - i,
        {
            proof {
                assert(decreases_to!(*self => self.stmts));
                assert(decreases_to!(self.stmts => self.stmts@));
                assert(decreases_to!(self.stmts@ => self.stmts@[i as int]));
                assert(decreases_to!(*self, 1int => self.stmts@[i as int], 0int));
            }
            let moved_env = env;
            match self.stmts[i].build(table, moved_env, b) {
                Ok(env2) => {
                    env = env2;
                }
                Err(e) => {
                    return Err(e);
                }
            }
            i = i + 1;
        }
        let v = match self.end.build(table, &env, b) {
            Ok(v) => v,
            Err(e) => {
                return Err(e);
            }
        };
        Ok((env, v))
    }

    /// The declaration step: every distinct callee with its arity, each
    /// name checked against the backend's naming constraints.
    pub fn decl_funcs(&self) -> (r: Result<Vec<FuncSig>, LowerError>)
        ensures
            match r {
                Ok(v) => spec_decl_funcs(*self) == Ok::<_, LowerErrorV>(sigs_view(v@)),
                Err(e) => spec_decl_funcs(*self) == Err::<Seq<FuncSigV>, _>(e@),
            },
    {
        let sigs = match self.find_funcs() {
            Ok(s) => s,
            Err(e) => {
                return Err(e);
            }
        };
        let n = sigs.len();
        let mut i: usize = 0;
        while i < n
            invariant
                n == sigs.len(),
                i <= n,
                spec_validate(sigs_view(sigs@), 0) == spec_validate(sigs_view(sigs@), i as int),
            decreases n - i,
        {
            proof {
                assert(sigs_view(sigs@)[i as int] == sigs@[i as int]@);
            }
            if !name_ok(&sigs[i].name) {
                return Err(LowerError::IdentifierEncodingError(sigs[i].name.clone()));
            }
            i = i + 1;
        }
        Ok(sigs)
    }

    /// Build the entry function's body: this program against a fresh
    /// empty environment, its value returned.
    pub fn init_module(&self, table: &Vec<FuncSig>, b: &mut Builder) -> (r: Result<
        usize,
        LowerError,
    >)
        requires
            bv_wf(old(b)@),
        ensures
            bv_wf(final(b)@),
            ({
                let (b2, r2) = spec_init(*self, sigs_view(table@), old(b)@);
                final(b)@ == b2 && (match r {
                    Ok(v) => r2 == Ok::<int, LowerErrorV>(v as int),
                    Err(e) => r2 == Err::<int, LowerErrorV>(e@),
                })
            }),
    {
        let env = Block::new_env();
        match self.build(table, b, env) {
            Ok((_, v)) => {
                let _r: usize = b.push_inst(Inst::Ret(v), None);
                Ok(v)
            }
            Err(e) => Err(e),
        }
    }

    /// The whole pipeline: discover and declare the callees, then build
    /// the entry function; the failures of the two independent steps are
    /// aggregated into one list.
    pub fn gen_module(&self) -> (r: Result<Module, Vec<LowerError>>)
        ensures
            match r {
                Ok(m) => spec_gen_module(*self) == Ok::<_, Seq<LowerErrorV>>(m@),
                Err(es) => spec_gen_module(*self) == Err::<ModuleV, _>(errs_view(es@)) && es@.len()
                    > 0,
            },
    {
        let (table, decl_err): (Vec<FuncSig>, Option<LowerError>) = match self.decl_funcs() {
            Ok(d) => (d, None),
            Err(e) => (Vec::new(), Some(e)),
        };
        proof {
            if decl_err is Some {
                assert(sigs_view(table@) =~= Seq::<FuncSigV>::empty());
            }
        }
        let mut builder = Builder::new();
        let build_result = self.init_module(&table, &mut builder);
        match (decl_err, build_result) {
            (None, Ok(v)) => Ok(Module { decls: table, body: builder, ret: v }),
            (Some(e), Ok(_)) => {
                let mut errs: Vec<LowerError> = Vec::new();
                let ghost ev = e@;
                errs.push(e);
                proof {
                    assert(errs_view(errs@) =~= seq![ev]);
                }
                Err(errs)
            }
            (None, Err(e)) => {
                let mut errs: Vec<LowerError> = Vec::new();
                let ghost ev = e@;
                errs.push(e);
                proof {
                    assert(errs_view(errs@) =~= seq![ev]);
                }
                Err(errs)
            }
            (Some(e1), Err(e2)) => {
                let mut errs: Vec<LowerError> = Vec::new();
                let ghost ev1 = e1@;
                let ghost ev2 = e2@;
                errs.push(e1);
                errs.push(e2);
                proof {
                    assert(errs_view(errs@) =~= seq![ev1, ev2]);
                }
                Err(errs)
            }
        }
    }
}

} // verus!
