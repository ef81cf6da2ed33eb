//! The stated laws of the lowering pipeline.
//!
//! Each proof function here states a property of the specification that
//! every verified function of the crate is held to, so the property holds
//! of the executable pipeline as well.

use vstd::prelude::*;
use crate::ast::{Block, Statement, Term};
use crate::callgraph::{
    block_sites, sig_find_from, spec_find_block, spec_find_stmt, spec_find_stmts, spec_find_term, spec_find_terms,
    spec_note_site, stmt_sites, stmts_sites, term_sites, terms_sites,
};
use crate::env::{env_lookup, EnvEntryV, Levity};
use crate::error::LowerErrorV;
use crate::ir::{BuilderV, FuncSigV};
use crate::lower::{
    spec_build_block, spec_build_stmt, spec_build_stmts, spec_build_term, spec_decl_funcs,
    spec_gen_module, spec_validate,
};
use crate::semantics::{
    arith_block, arith_stmt, arith_stmts, arith_term, eval_value, interp_block, interp_stmt,
    interp_stmts, interp_term, lemma_eval_value_stable,
};
use crate::ir::{bv_push, fold_const, InstV, ModuleV};

verus! {

/// Whether the table carries `name` with `arity`.
pub open spec fn sig_has(sigs: Seq<FuncSigV>, name: Seq<char>, arity: int) -> bool {
    exists|i: int| 0 <= i < sigs.len() && sigs[i].name == name && sigs[i].arity == arity
}

/// Whether no name occurs twice in the table.
pub open spec fn sig_names_unique(sigs: Seq<FuncSigV>) -> bool {
    forall|i: int, j: int| 0 <= i < j < sigs.len() ==> sigs[i].name != sigs[j].name
}

/// What a signature scan finds: an index in range naming the name, or the
/// absence of the name past the scan start.
proof fn lemma_sig_find_props(sigs: Seq<FuncSigV>, name: Seq<char>, j: int)
    requires
        0 <= j,
    ensures
        match sig_find_from(sigs, name, j) {
            Some(i) => j <= i < sigs.len() && sigs[i].name == name,
            None => forall|k: int| j <= k < sigs.len() ==> sigs[k].name != name,
        },
    decreases sigs.len() - j,
{
    if j < sigs.len() && sigs[j].name != name {
        lemma_sig_find_props(sigs, name, j + 1);
    }
}

/// Observing one call site keeps the table's names unique, adds exactly
/// that site, and fails only with an arity conflict.
proof fn lemma_note_site(acc: Seq<FuncSigV>, name: Seq<char>, arity: int)
    requires
        sig_names_unique(acc),
    ensures
        match spec_note_site(acc, name, arity) {
            Ok(a2) => sig_names_unique(a2) && (forall|n: Seq<char>, a: int|
                #![auto]
                sig_has(a2, n, a) <==> (sig_has(acc, n, a) || (n == name && a == arity))),
            Err(e) => e is ArityConflict,
        },
{
    lemma_sig_find_props(acc, name, 0);
    match spec_note_site(acc, name, arity) {
        Ok(a2) => {
            assert forall|n: Seq<char>, a: int|
                #![auto]
                sig_has(a2, n, a) <==> (sig_has(acc, n, a) || (n == name && a == arity)) by {
                if sig_has(a2, n, a) {
                    let i = choose|i: int|
                        0 <= i < a2.len() && a2[i].name == n && a2[i].arity == a;
                    if i < acc.len() {
                        assert(sig_has(acc, n, a));
                    }
                }
                if sig_has(acc, n, a) {
                    let i = choose|i: int|
                        0 <= i < acc.len() && acc[i].name == n && acc[i].arity == a;
                    assert(a2[i].name == n && a2[i].arity == a);
                }
                if n == name && a == arity {
                    match crate::callgraph::sig_find(acc, name) {
                        Some(i) => {
                            assert(a2[i].name == n && a2[i].arity == a);
                        },
                        None => {
                            assert(a2[acc.len() as int].name == n);
                        },
                    }
                }
            }
        },
        Err(_) => {},
    }
}

/// The discovery walk over a term: on success the names stay unique and
/// the table carries exactly the old entries and the term's call sites;
/// every failure is an arity conflict.
proof fn lemma_find_term_props(t: Term, acc: Seq<FuncSigV>)
    requires
        sig_names_unique(acc),
    ensures
        match spec_find_term(t, acc) {
            Ok(v) => sig_names_unique(v) && (forall|n: Seq<char>, a: int|
                #![auto]
                sig_has(v, n, a) <==> (sig_has(acc, n, a) || term_sites(t).contains((n, a)))),
            Err(e) => e is ArityConflict,
        },
    decreases t, 0int, 0int,
{
    match t {
        Term::Literal(_) => {},
        Term::Var(_) => {},
        Term::Infix(l, _, r) => {
            lemma_find_term_props(*l, acc);
            match spec_find_term(*l, acc) {
                Ok(a2) => {
                    lemma_find_term_props(*r, a2);
                },
                Err(_) => {},
            }
        },
        Term::Call(name, args) => {
            lemma_note_site(acc, name@, args@.len() as int);
            match spec_note_site(acc, name@, args@.len() as int) {
                Ok(a2) => {
                    lemma_find_terms_props(args@, 0, a2);
                },
                Err(_) => {},
            }
        },
        Term::Scope(b) => {
            lemma_find_block_props(*b, acc);
        },
        Term::While(c, b) => {
            lemma_find_term_props(*c, acc);
            match spec_find_term(*c, acc) {
                Ok(a2) => {
                    lemma_find_block_props(*b, a2);
                },
                Err(_) => {},
            }
        },
    }
}

/// The discovery walk over argument terms from position `i` on.
proof fn lemma_find_terms_props(ts: Seq<Term>, i: int, acc: Seq<FuncSigV>)
    requires
        sig_names_unique(acc),
    ensures
        match spec_find_terms(ts, i, acc) {
            Ok(v) => sig_names_unique(v) && (forall|n: Seq<char>, a: int|
                #![auto]
                sig_has(v, n, a) <==> (sig_has(acc, n, a) || terms_sites(ts, i).contains(
                    (n, a),
                ))),
            Err(e) => e is ArityConflict,
        },
    decreases ts, ts.len() - i, 0int,
{
    if 0 <= i < ts.len() {
        lemma_find_term_props(ts[i], acc);
        match spec_find_term(ts[i], acc) {
            Ok(a2) => {
                lemma_find_terms_props(ts, i + 1, a2);
            },
            Err(_) => {},
        }
    }
}

/// The discovery walk over a statement.
proof fn lemma_find_stmt_props(s: Statement, acc: Seq<FuncSigV>)
    requires
        sig_names_unique(acc),
    ensures
        match spec_find_stmt(s, acc) {
            Ok(v) => sig_names_unique(v) && (forall|n: Seq<char>, a: int|
                #![auto]
                sig_has(v, n, a) <==> (sig_has(acc, n, a) || stmt_sites(s).contains((n, a)))),
            Err(e) => e is ArityConflict,
        },
    decreases s, 0int, 0int,
{
    match s {
        Statement::TermSemicolon(t) => {
            lemma_find_term_props(t, acc);
        },
        Statement::Let(_, rhs) => {
            lemma_find_term_props(rhs, acc);
        },
        Statement::LetMut(_, rhs) => {
            lemma_find_term_props(rhs, acc);
        },
        Statement::Mutate(_, rhs) => {
            lemma_find_term_props(rhs, acc);
        },
    }
}

/// The discovery walk over statements from position `i` on.
proof fn lemma_find_stmts_props(ss: Seq<Statement>, i: int, acc: Seq<FuncSigV>)
    requires
        sig_names_unique(acc),
    ensures
        match spec_find_stmts(ss, i, acc) {
            Ok(v) => sig_names_unique(v) && (forall|n: Seq<char>, a: int|
                #![auto]
                sig_has(v, n, a) <==> (sig_has(acc, n, a) || stmts_sites(ss, i).contains(
                    (n, a),
                ))),
            Err(e) => e is ArityConflict,
        },
    decreases ss, ss.len() - i, 0int,
{
    if 0 <= i < ss.len() {
        lemma_find_stmt_props(ss[i], acc);
        match spec_find_stmt(ss[i], acc) {
            Ok(a2) => {
                lemma_find_stmts_props(ss, i + 1, a2);
            },
            Err(_) => {},
        }
    }
}

/// The discovery walk over a block.
proof fn lemma_find_block_props(b: Block, acc: Seq<FuncSigV>)
    requires
        sig_names_unique(acc),
    ensures
        match spec_find_block(b, acc) {
            Ok(v) => sig_names_unique(v) && (forall|n: Seq<char>, a: int|
                #![auto]
                sig_has(v, n, a) <==> (sig_has(acc, n, a) || block_sites(b).contains((n, a)))),
            Err(e) => e is ArityConflict,
        },
    decreases b, 0int, 1int,
{
    lemma_find_stmts_props(b.stmts@, 0, acc);
    match spec_find_stmts(b.stmts@, 0, acc) {
        Ok(a2) => {
            lemma_find_term_props(*b.end, a2);
        },
        Err(_) => {},
    }
}

/// A scope used as a statement leaves the environment untouched: every
/// binding made inside — a `LetMut` shadowing an outer name included —
/// is discarded on exit, and every outer name resolves afterwards exactly
/// as it did before.
pub proof fn lemma_scope_bindings_do_not_escape(
    t: Term,
    table: Seq<FuncSigV>,
    env: Seq<EnvEntryV>,
    b: BuilderV,
)
    requires
        t is Scope,
    ensures
        ({
            let (b2, r) = spec_build_stmt(Statement::TermSemicolon(t), table, env, b);
            r is Ok ==> r->Ok_0 == env && (forall|n: Seq<char>|
                env_lookup(r->Ok_0, n) == env_lookup(env, n))
        }),
{
}

/// A `Mutate` of a name with no binding fails with `UndeclaredVariable`;
/// one of a name bound immutably fails with `ImmutableAssignment`. In
/// both cases nothing is built.
pub proof fn lemma_mutate_errors(
    s: Statement,
    table: Seq<FuncSigV>,
    env: Seq<EnvEntryV>,
    b: BuilderV,
)
    requires
        s is Mutate,
    ensures
        env_lookup(env, s->Mutate_0@) is None ==> spec_build_stmt(s, table, env, b) == (
            b,
            Err::<Seq<EnvEntryV>, LowerErrorV>(LowerErrorV::UndeclaredVariable(s->Mutate_0@)),
        ),
        (match env_lookup(env, s->Mutate_0@) {
            Some((_, Levity::Unboxed(_))) => spec_build_stmt(s, table, env, b) == (
                b,
                Err::<Seq<EnvEntryV>, LowerErrorV>(
                    LowerErrorV::ImmutableAssignment(s->Mutate_0@),
                ),
            ),
            _ => true,
        }),
{
}

/// A program calling one name with two different argument counts anywhere
/// fails with `ArityConflict`, and no module is produced: discovery runs
/// before any construction.
pub proof fn lemma_arity_conflict_fails(p: Block, n: Seq<char>, a1: int, a2: int)
    requires
        block_sites(p).contains((n, a1)),
        block_sites(p).contains((n, a2)),
        a1 != a2,
    ensures
        spec_gen_module(p) is Err,
        spec_gen_module(p)->Err_0.len() >= 1,
        spec_gen_module(p)->Err_0[0] is ArityConflict,
{
    lemma_find_block_props(p, Seq::empty());
    match spec_find_block(p, Seq::empty()) {
        Ok(v) => {
            assert(sig_has(v, n, a1));
            assert(sig_has(v, n, a2));
            let i = choose|i: int| 0 <= i < v.len() && v[i].name == n && v[i].arity == a1;
            let j = choose|j: int| 0 <= j < v.len() && v[j].name == n && v[j].arity == a2;
            assert(i != j);
            if i < j {
                assert(v[i].name != v[j].name);
            } else {
                assert(v[j].name != v[i].name);
            }
            assert(false);
        },
        Err(e) => {
            assert(spec_decl_funcs(p) == Err::<Seq<FuncSigV>, LowerErrorV>(e));
        },
    }
}

/// A program with no function call yields a module that declares nothing
/// beside its entry function: the declaration table is empty.
pub proof fn lemma_no_calls_no_declarations(p: Block)
    requires
        block_sites(p) == Set::<(Seq<char>, int)>::empty(),
    ensures
        (match spec_gen_module(p) {
            Ok(m) => m.decls.len() == 0,
            Err(_) => true,
        }),
{
    lemma_find_block_props(p, Seq::empty());
    match spec_find_block(p, Seq::empty()) {
        Ok(v) => {
            if v.len() > 0 {
                assert(sig_has(v, v[0].name, v[0].arity));
                assert(false);
            }
            assert(spec_validate(v, 0) == Ok::<(), LowerErrorV>(()));
        },
        Err(_) => {},
    }
}

/// The constant column is sound: a value marked with a known constant
/// evaluates to it.
pub open spec fn consts_ok(b: BuilderV) -> bool {
    &&& b.consts.len() == b.insts.len()
    &&& forall|i: int|
        #![auto]
        0 <= i < b.consts.len() && b.consts[i] is Some ==> eval_value(b.insts, i) == b.consts[i]
}

/// The second builder state carries the first's instructions and
/// constants unchanged, possibly followed by more.
pub open spec fn extends(b1: BuilderV, b2: BuilderV) -> bool {
    &&& b1.insts.len() <= b2.insts.len()
    &&& b1.consts.len() <= b2.consts.len()
    &&& forall|k: int| #![auto] 0 <= k < b1.insts.len() ==> b2.insts[k] == b1.insts[k]
    &&& forall|k: int| #![auto] 0 <= k < b1.consts.len() ==> b2.consts[k] == b1.consts[k]
}

proof fn lemma_extends_trans(b1: BuilderV, b2: BuilderV, b3: BuilderV)
    requires
        extends(b1, b2),
        extends(b2, b3),
    ensures
        extends(b1, b3),
{
}

/// The environment agrees with the interpreter's: exactly the
/// interpreted names are bound, each immutably, to a value whose known
/// constant is the interpreted value.
pub open spec fn env_ok(env: Seq<EnvEntryV>, ienv: Map<Seq<char>, i32>, b: BuilderV) -> bool {
    forall|n: Seq<char>|
        #![trigger env_lookup(env, n)]
        {
            &&& (ienv.contains_key(n) <==> env_lookup(env, n) is Some)
            &&& (match env_lookup(env, n) {
                Some((v, lev)) => ienv.contains_key(n) ==> lev == Levity::Unboxed(ienv[n]) && 0
                    <= v < b.insts.len() && b.consts[v] == Some(ienv[n]),
                None => true,
            })
        }
}

proof fn lemma_env_ok_extends(
    env: Seq<EnvEntryV>,
    ienv: Map<Seq<char>, i32>,
    b1: BuilderV,
    b2: BuilderV,
)
    requires
        env_ok(env, ienv, b1),
        extends(b1, b2),
        consts_ok(b1),
    ensures
        env_ok(env, ienv, b2),
{
    assert forall|n: Seq<char>|
        {
            &&& (ienv.contains_key(n) <==> #[trigger] env_lookup(env, n) is Some)
            &&& (match env_lookup(env, n) {
                Some((v, lev)) => ienv.contains_key(n) ==> lev == Levity::Unboxed(ienv[n]) && 0
                    <= v < b2.insts.len() && b2.consts[v] == Some(ienv[n]),
                None => true,
            })
        } by {
        assert(ienv.contains_key(n) <==> env_lookup(env, n) is Some);
    }
}

/// In the fragment, discovery finds nothing.
proof fn lemma_arith_term_no_finds(t: Term, acc: Seq<FuncSigV>)
    requires
        arith_term(t),
    ensures
        spec_find_term(t, acc) == Ok::<Seq<FuncSigV>, LowerErrorV>(acc),
    decreases t,
{
    match t {
        Term::Infix(l, _, r) => {
            lemma_arith_term_no_finds(*l, acc);
            lemma_arith_term_no_finds(*r, acc);
        },
        _ => {},
    }
}

proof fn lemma_arith_stmts_no_finds(ss: Seq<Statement>, i: int, acc: Seq<FuncSigV>)
    requires
        arith_stmts(ss, i),
    ensures
        spec_find_stmts(ss, i, acc) == Ok::<Seq<FuncSigV>, LowerErrorV>(acc),
    decreases ss.len() - i,
{
    if 0 <= i < ss.len() {
        match ss[i] {
            Statement::TermSemicolon(t) => {
                lemma_arith_term_no_finds(t, acc);
            },
            Statement::Let(_, rhs) => {
                lemma_arith_term_no_finds(rhs, acc);
            },
            _ => {
                assert(!arith_stmt(ss[i]));
            },
        }
        assert(spec_find_stmt(ss[i], acc) == Ok::<Seq<FuncSigV>, LowerErrorV>(acc));
        lemma_arith_stmts_no_finds(ss, i + 1, acc);
    }
}

/// Lowering one fragment expression: it succeeds, only appends, keeps the
/// constant column sound, and the result's known constant is the
/// reference interpreter's value.
proof fn lemma_build_term_arith(
    t: Term,
    table: Seq<FuncSigV>,
    env: Seq<EnvEntryV>,
    b: BuilderV,
    ienv: Map<Seq<char>, i32>,
    k: i32,
)
    requires
        arith_term(t),
        consts_ok(b),
        env_ok(env, ienv, b),
        interp_term(t, ienv) == Some(k),
    ensures
        ({
            let (b2, r) = spec_build_term(t, table, env, b);
            &&& extends(b, b2)
            &&& consts_ok(b2)
            &&& r is Ok
            &&& 0 <= r->Ok_0 < b2.insts.len()
            &&& b2.consts[r->Ok_0] == Some(k)
        }),
    decreases t,
{
    match t {
        Term::Literal(i) => {
            let (b2, v) = bv_push(b, InstV::ConstInt(i), Some(i));
            assert(eval_value(b2.insts, v) == Some(i));
            assert forall|j: int|
                #![auto]
                0 <= j < b2.consts.len() && b2.consts[j] is Some implies eval_value(b2.insts, j)
                == b2.consts[j] by {
                if j < b.insts.len() {
                    lemma_eval_value_stable(b.insts, b2.insts, j);
                }
            }
        },
        Term::Var(name) => {
            assert(ienv.contains_key(name@));
            assert(env_lookup(env, name@) is Some);
        },
        Term::Infix(l, op, r) => {
            let x = interp_term(*l, ienv)->Some_0;
            let y = interp_term(*r, ienv)->Some_0;
            lemma_build_term_arith(*l, table, env, b, ienv, x);
            let (b1, r1) = spec_build_term(*l, table, env, b);
            let va = r1->Ok_0;
            lemma_env_ok_extends(env, ienv, b, b1);
            lemma_build_term_arith(*r, table, env, b1, ienv, y);
            let (b2, r2) = spec_build_term(*r, table, env, b1);
            let vc = r2->Ok_0;
            assert(b2.consts[va] == Some(x));
            assert(fold_const(b2, op, va, vc) == Some(k));
            let (b3, v) = bv_push(b2, InstV::Bin(op, va, vc), Some(k));
            lemma_eval_value_stable(b2.insts, b3.insts, va);
            lemma_eval_value_stable(b2.insts, b3.insts, vc);
            assert(eval_value(b3.insts, v) == Some(k));
            assert forall|j: int|
                #![auto]
                0 <= j < b3.consts.len() && b3.consts[j] is Some implies eval_value(b3.insts, j)
                == b3.consts[j] by {
                if j < b2.insts.len() {
                    lemma_eval_value_stable(b2.insts, b3.insts, j);
                }
            }
            lemma_extends_trans(b, b1, b2);
            lemma_extends_trans(b, b2, b3);
        },
        _ => {},
    }
}

/// Lowering one fragment statement: it succeeds and the new environment
/// agrees with the interpreter's.
proof fn lemma_build_stmt_arith(
    s: Statement,
    table: Seq<FuncSigV>,
    env: Seq<EnvEntryV>,
    b: BuilderV,
    ienv: Map<Seq<char>, i32>,
    ienv2: Map<Seq<char>, i32>,
)
    requires
        arith_stmt(s),
        consts_ok(b),
        env_ok(env, ienv, b),
        interp_stmt(s, ienv) == Some(ienv2),
    ensures
        ({
            let (b2, r) = spec_build_stmt(s, table, env, b);
            &&& extends(b, b2)
            &&& consts_ok(b2)
            &&& r is Ok
            &&& env_ok(r->Ok_0, ienv2, b2)
        }),
    decreases s,
{
    match s {
        Statement::TermSemicolon(t) => {
            let kv = interp_term(t, ienv)->Some_0;
            lemma_build_term_arith(t, table, env, b, ienv, kv);
            let (b1, _r) = spec_build_term(t, table, env, b);
            lemma_env_ok_extends(env, ienv, b, b1);
        },
        Statement::Let(name, rhs) => {
            let kv = interp_term(rhs, ienv)->Some_0;
            lemma_build_term_arith(rhs, table, env, b, ienv, kv);
            let (b1, r1) = spec_build_term(rhs, table, env, b);
            let vid = r1->Ok_0;
            lemma_env_ok_extends(env, ienv, b, b1);
            let env2 = crate::env::env_bind(env, name@, vid, Levity::Unboxed(kv));
            assert forall|m: Seq<char>|
                {
                    &&& (ienv2.contains_key(m) <==> #[trigger] env_lookup(env2, m) is Some)
                    &&& (match env_lookup(env2, m) {
                        Some((v, lev)) => ienv2.contains_key(m) ==> lev == Levity::Unboxed(
                            ienv2[m],
                        ) && 0 <= v < b1.insts.len() && b1.consts[v] == Some(ienv2[m]),
                        None => true,
                    })
                } by {
                crate::env::lemma_env_bind_lookup(env, name@, vid, Levity::Unboxed(kv), m);
                if m != name@ {
                    assert(ienv.contains_key(m) <==> env_lookup(env, m) is Some);
                }
            }
        },
        _ => {},
    }
}

/// Lowering the fragment statements from position `i` on.
proof fn lemma_build_stmts_arith(
    ss: Seq<Statement>,
    i: int,
    table: Seq<FuncSigV>,
    env: Seq<EnvEntryV>,
    b: BuilderV,
    ienv: Map<Seq<char>, i32>,
    ienv2: Map<Seq<char>, i32>,
)
    requires
        arith_stmts(ss, i),
        consts_ok(b),
        env_ok(env, ienv, b),
        interp_stmts(ss, i, ienv) == Some(ienv2),
    ensures
        ({
            let (b2, r) = spec_build_stmts(ss, i, table, env, b);
            &&& extends(b, b2)
            &&& consts_ok(b2)
            &&& r is Ok
            &&& env_ok(r->Ok_0, ienv2, b2)
        }),
    decreases ss.len() - i,
{
    if 0 <= i < ss.len() {
        let imid = interp_stmt(ss[i], ienv)->Some_0;
        lemma_build_stmt_arith(ss[i], table, env, b, ienv, imid);
        let (b1, r1) = spec_build_stmt(ss[i], table, env, b);
        lemma_build_stmts_arith(ss, i + 1, table, r1->Ok_0, b1, imid, ienv2);
        let (b2, _r2) = spec_build_stmts(ss, i + 1, table, r1->Ok_0, b1);
        lemma_extends_trans(b, b1, b2);
    }
}

/// For a program of immutable bindings and arithmetic, the lowered entry
/// function returns exactly the integer the reference interpreter
/// computes: compilation succeeds, and the returned value of the module
/// evaluates, under the straight-line semantics of its body, to the
/// interpreted result.
pub proof fn lemma_entry_returns_reference_value(p: Block, k: i32)
    requires
        arith_block(p),
        interp_block(p, Map::empty()) == Some(k),
    ensures
        spec_gen_module(p) is Ok,
        ({
            let m = spec_gen_module(p)->Ok_0;
            eval_value(m.body.insts, m.ret) == Some(k)
        }),
{
    lemma_arith_stmts_no_finds(p.stmts@, 0, Seq::empty());
    lemma_arith_term_no_finds(*p.end, Seq::empty());
    assert(spec_find_block(p, Seq::empty()) == Ok::<Seq<FuncSigV>, LowerErrorV>(Seq::empty()));
    assert(spec_decl_funcs(p) == Ok::<Seq<FuncSigV>, LowerErrorV>(Seq::empty()));
    let b0 = crate::ir::bv_new();
    let table = Seq::<FuncSigV>::empty();
    let ienv0 = Map::<Seq<char>, i32>::empty();
    assert(consts_ok(b0));
    assert forall|n: Seq<char>|
        {
            &&& (ienv0.contains_key(n) <==> #[trigger] env_lookup(
                Seq::<EnvEntryV>::empty(),
                n,
            ) is Some)
            &&& (match env_lookup(Seq::<EnvEntryV>::empty(), n) {
                Some((v, lev)) => ienv0.contains_key(n) ==> lev == Levity::Unboxed(ienv0[n]) && 0
                    <= v < b0.insts.len() && b0.consts[v] == Some(ienv0[n]),
                None => true,
            })
        } by {
        assert(!ienv0.contains_key(n));
    }
    let imid = interp_stmts(p.stmts@, 0, ienv0)->Some_0;
    lemma_build_stmts_arith(p.stmts@, 0, table, Seq::empty(), b0, ienv0, imid);
    let (b1, r1) = spec_build_stmts(p.stmts@, 0, table, Seq::empty(), b0);
    lemma_build_term_arith(*p.end, table, r1->Ok_0, b1, imid, k);
    let (b2, r2) = spec_build_term(*p.end, table, r1->Ok_0, b1);
    let v = r2->Ok_0;
    let (b3, _r3) = bv_push(b2, InstV::Ret(v), None);
    lemma_eval_value_stable(b2.insts, b3.insts, v);
    assert(eval_value(b3.insts, v) == Some(k));
}

/// A loop header merges only what the condition reads: every merge point
/// the header construction creates is for a name in the condition's
/// free variables; no merge point is created for any other binding.
pub proof fn lemma_merge_points_only_for_condition_reads(
    entries: Seq<EnvEntryV>,
    i: int,
    vars: Set<Seq<char>>,
    pre_block: int,
    lb: int,
    b: BuilderV,
    merged: Seq<EnvEntryV>,
    phis: Seq<(Seq<char>, int)>,
)
    requires
        forall|k: int| 0 <= k < phis.len() ==> vars.contains(#[trigger] phis[k].0),
    ensures
        forall|k: int|
            0 <= k < crate::lower::spec_make_phis(
                entries,
                i,
                vars,
                pre_block,
                lb,
                b,
                merged,
                phis,
            ).2.len() ==> vars.contains(
                #[trigger] crate::lower::spec_make_phis(
                    entries,
                    i,
                    vars,
                    pre_block,
                    lb,
                    b,
                    merged,
                    phis,
                ).2[k].0,
            ),
    decreases entries.len() - i,
{
    let out = crate::lower::spec_make_phis(entries, i, vars, pre_block, lb, b, merged, phis);
    if 0 <= i < entries.len() {
        let e = entries[i];
        if vars.contains(e.name) {
            let (b2, phi) = bv_push(
                b,
                InstV::Phi { pre_val: e.val, pre_block, latch_val: None, latch_block: lb },
                None,
            );
            let phis2 = phis.push((e.name, phi));
            let merged2 = crate::env::env_bind(merged, e.name, phi, e.lev);
            assert forall|k: int| 0 <= k < phis2.len() implies vars.contains(
                #[trigger] phis2[k].0,
            ) by {
                if k < phis.len() {
                    assert(phis2[k] == phis[k]);
                } else {
                    assert(phis2[k] == (e.name, phi));
                }
            }
            lemma_merge_points_only_for_condition_reads(
                entries,
                i + 1,
                vars,
                pre_block,
                lb,
                b2,
                merged2,
                phis2,
            );
            let rec = crate::lower::spec_make_phis(
                entries,
                i + 1,
                vars,
                pre_block,
                lb,
                b2,
                merged2,
                phis2,
            );
            assert(out == rec);
            assert forall|k: int| 0 <= k < out.2.len() implies vars.contains(
                #[trigger] out.2[k].0,
            ) by {
                assert(vars.contains(rec.2[k].0));
            }
        } else {
            lemma_merge_points_only_for_condition_reads(
                entries,
                i + 1,
                vars,
                pre_block,
                lb,
                b,
                merged,
                phis,
            );
            let rec = crate::lower::spec_make_phis(entries, i + 1, vars, pre_block, lb, b, merged, phis);
            assert(out == rec);
            assert forall|k: int| 0 <= k < out.2.len() implies vars.contains(
                #[trigger] out.2[k].0,
            ) by {
                assert(vars.contains(rec.2[k].0));
            }
        }
    } else {
        assert(out.2 == phis);
        assert forall|k: int| 0 <= k < out.2.len() implies vars.contains(
            #[trigger] out.2[k].0,
        ) by {
            assert(vars.contains(phis[k].0));
        }
    }
}

} // verus!
