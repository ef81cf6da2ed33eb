use backend::ast::{Block, Operator, Statement, Term};
use backend::env::Env;
use backend::error::LowerError;
use backend::ir::{Builder, Inst};

fn lit(i: i32) -> Term {
    Term::Literal(i)
}

fn var(n: &str) -> Term {
    Term::Var(n.to_string())
}

fn infix(l: Term, op: Operator, r: Term) -> Term {
    Term::Infix(Box::new(l), op, Box::new(r))
}

fn call(name: &str, args: Vec<Term>) -> Term {
    Term::Call(name.to_string(), args)
}

fn block(stmts: Vec<Statement>, end: Term) -> Block {
    Block { stmts, end: Box::new(end) }
}

fn let_(n: &str, rhs: Term) -> Statement {
    Statement::Let(n.to_string(), rhs)
}

fn let_mut(n: &str, rhs: Term) -> Statement {
    Statement::LetMut(n.to_string(), rhs)
}

fn mutate(n: &str, rhs: Term) -> Statement {
    Statement::Mutate(n.to_string(), rhs)
}

fn semi(t: Term) -> Statement {
    Statement::TermSemicolon(t)
}

#[test]
fn arithmetic_program_folds_to_reference_value() {
    // let x = 2; let y = 3; x * y + 4  ==>  10
    let p = block(
        vec![let_("x", lit(2)), let_("y", lit(3))],
        infix(infix(var("x"), Operator::Mul, var("y")), Operator::Add, lit(4)),
    );
    let m = p.gen_module().expect("program compiles");
    assert_eq!(m.body.consts[m.ret], Some(10));
}

#[test]
fn arithmetic_wraps_like_machine_words() {
    // let x = 2147483647; x + 1 wraps around
    let p = block(vec![let_("x", lit(i32::MAX))], infix(var("x"), Operator::Add, lit(1)));
    let m = p.gen_module().expect("program compiles");
    assert_eq!(m.body.consts[m.ret], Some(i32::MIN));
}

#[test]
fn division_by_zero_is_not_a_constant() {
    // let x = 1 / 0; fails: the right-hand side has no known value
    let p = block(vec![let_("x", infix(lit(1), Operator::Div, lit(0)))], lit(0));
    let errs = p.gen_module().expect_err("program is rejected");
    assert_eq!(errs, vec![LowerError::NonConstantLet("x".to_string())]);
}

#[test]
fn let_of_loaded_value_is_rejected() {
    // let mut y = 1; let x = y; a load is not a compile-time constant
    let p = block(vec![let_mut("y", lit(1)), let_("x", var("y"))], lit(0));
    let errs = p.gen_module().expect_err("program is rejected");
    assert_eq!(errs, vec![LowerError::NonConstantLet("x".to_string())]);
}

#[test]
fn undeclared_variable_is_reported() {
    let p = block(vec![], var("q"));
    let errs = p.gen_module().expect_err("program is rejected");
    assert_eq!(errs, vec![LowerError::UndeclaredVariable("q".to_string())]);
}

#[test]
fn mutate_undeclared_fails_with_undeclared_variable() {
    let p = block(vec![mutate("x", lit(1))], lit(0));
    let errs = p.gen_module().expect_err("program is rejected");
    assert_eq!(errs, vec![LowerError::UndeclaredVariable("x".to_string())]);
}

#[test]
fn mutate_immutable_fails_with_immutable_assignment() {
    let p = block(vec![let_("x", lit(1)), mutate("x", lit(2))], lit(0));
    let errs = p.gen_module().expect_err("program is rejected");
    assert_eq!(errs, vec![LowerError::ImmutableAssignment("x".to_string())]);
}

#[test]
fn arity_conflict_fails_before_any_lowering() {
    // f used with one argument and with two, in distant subtrees
    let p = block(
        vec![semi(call("f", vec![lit(1)]))],
        call("f", vec![lit(1), lit(2)]),
    );
    let errs = p.gen_module().expect_err("program is rejected");
    assert!(matches!(errs[0], LowerError::ArityConflict(ref n) if n == "f"));
}

#[test]
fn independent_step_failures_are_aggregated() {
    // an arity conflict and an unresolvable call surface together
    let p = block(
        vec![semi(call("f", vec![lit(1)]))],
        infix(call("f", vec![lit(1), lit(2)]), Operator::Add, var("z")),
    );
    let errs = p.gen_module().expect_err("program is rejected");
    assert_eq!(errs.len(), 2);
    assert!(matches!(errs[0], LowerError::ArityConflict(ref n) if n == "f"));
    assert!(matches!(errs[1], LowerError::UndeclaredFunction(ref n) if n == "f"));
}

#[test]
fn callees_are_declared_once_with_their_arity() {
    let p = block(
        vec![semi(call("f", vec![lit(1), lit(2)])), semi(call("g", vec![]))],
        call("f", vec![lit(3), lit(4)]),
    );
    let m = p.gen_module().expect("program compiles");
    assert_eq!(m.decls.len(), 2);
    assert_eq!(m.decls[0].name, "f");
    assert_eq!(m.decls[0].arity, 2);
    assert_eq!(m.decls[1].name, "g");
    assert_eq!(m.decls[1].arity, 0);
}

#[test]
fn no_calls_means_no_external_declarations() {
    let p = block(vec![let_("x", lit(7))], var("x"));
    let m = p.gen_module().expect("program compiles");
    assert_eq!(m.decls.len(), 0);
}

#[test]
fn undeclared_function_is_reported_by_expression_lowering() {
    let table = Vec::new();
    let env = Env::new();
    let mut b = Builder::new();
    let t = call("missing", vec![]);
    let r = t.build(&table, &env, &mut b);
    assert_eq!(r, Err(LowerError::UndeclaredFunction("missing".to_string())));
}

#[test]
fn nul_in_callee_name_fails_identifier_encoding() {
    let p = block(vec![], call("bad\0name", vec![]));
    let errs = p.gen_module().expect_err("program is rejected");
    assert!(matches!(errs[0], LowerError::IdentifierEncodingError(ref n) if n == "bad\0name"));
}

#[test]
fn lowering_is_deterministic() {
    let p = block(
        vec![
            let_mut("x", lit(3)),
            semi(Term::While(
                Box::new(var("x")),
                Box::new(block(
                    vec![mutate("x", infix(var("x"), Operator::Sub, lit(1)))],
                    lit(0),
                )),
            )),
        ],
        lit(0),
    );
    let m1 = p.gen_module().expect("program compiles");
    let m2 = p.gen_module().expect("program compiles");
    assert_eq!(m1, m2);
}

#[test]
fn scope_bindings_are_discarded_on_exit() {
    // let mut x = 1; { let mut x = 2; x = 3; 0 }; x
    let p = block(
        vec![
            let_mut("x", lit(1)),
            semi(Term::Scope(Box::new(block(
                vec![let_mut("x", lit(2)), mutate("x", lit(3))],
                lit(0),
            )))),
        ],
        var("x"),
    );
    let m = p.gen_module().expect("program compiles");
    assert_eq!(
        m.body.insts,
        vec![
            Inst::Alloca,          // 0: the outer cell
            Inst::ConstInt(1),     // 1
            Inst::Store(1, 0),     // 2
            Inst::Alloca,          // 3: the shadowing inner cell
            Inst::ConstInt(2),     // 4
            Inst::Store(4, 3),     // 5
            Inst::ConstInt(3),     // 6
            Inst::Store(6, 3),     // 7: the inner mutation hits the inner cell
            Inst::ConstInt(0),     // 8: the scope's value
            Inst::Load(0),         // 9: after the scope, x is the outer cell
            Inst::Ret(9),          // 10
        ]
    );
}

#[test]
fn loop_merge_point_has_two_edges_and_entry_returns_zero() {
    // let mut x = 3; let mut y = 5; while x { x = x - 1; };
    let body = block(vec![mutate("x", infix(var("x"), Operator::Sub, lit(1)))], lit(0));
    let p = block(
        vec![let_mut("x", lit(3)), let_mut("y", lit(5))],
        Term::While(Box::new(var("x")), Box::new(body)),
    );
    let m = p.gen_module().expect("program compiles");
    // exactly one merge point: for x, none for y (not read by the condition)
    let phis: Vec<(usize, &Inst)> = m
        .body
        .insts
        .iter()
        .enumerate()
        .filter(|(_, i)| matches!(i, Inst::Phi { .. }))
        .collect();
    assert_eq!(phis.len(), 1);
    let (phi_id, phi) = phis[0];
    match phi {
        Inst::Phi { pre_val, pre_block, latch_val, latch_block } => {
            // the preheader edge carries x's cell, which holds 3
            assert_eq!(*pre_val, 0); // instruction 0 is x's alloca
            assert!(matches!(m.body.insts[0], Inst::Alloca));
            assert!(matches!(m.body.insts[1], Inst::ConstInt(3)));
            assert!(matches!(m.body.insts[2], Inst::Store(1, 0)));
            assert_eq!(*pre_block, 0); // entry is the preheader here
            // the latch edge was patched: x stays bound to the merge point
            assert_eq!(*latch_val, Some(phi_id));
            assert_eq!(*latch_block, 1); // the loop block
        }
        _ => unreachable!(),
    }
    // inside the body, the decremented value is stored through the merge
    // point's handle
    assert!(m
        .body
        .insts
        .iter()
        .any(|i| matches!(i, Inst::Store(v, c) if *c == phi_id && matches!(m.body.insts[*v], Inst::Bin(Operator::Sub, _, _)))));
    // the loop's value, and the entry function's result, is the constant 0
    assert!(matches!(m.body.insts[m.ret], Inst::ConstInt(0)));
    assert!(matches!(m.body.insts[m.body.insts.len() - 1], Inst::Ret(v) if v == m.ret));
}

#[test]
fn loop_blocks_are_laid_out_as_preheader_body_after() {
    let body = block(vec![mutate("x", infix(var("x"), Operator::Sub, lit(1)))], lit(0));
    let p = block(
        vec![let_mut("x", lit(3))],
        Term::While(Box::new(var("x")), Box::new(body)),
    );
    let m = p.gen_module().expect("program compiles");
    // three blocks: entry, loop, after-loop
    assert_eq!(m.body.blocks.len(), 3);
    // both conditional branches target the same pair of blocks
    let brs: Vec<&Inst> =
        m.body.insts.iter().filter(|i| matches!(i, Inst::CondBr(..))).collect();
    assert_eq!(brs.len(), 2);
    for br in brs {
        match br {
            Inst::CondBr(_, t, f) => {
                assert_eq!(*t, 2); // if the condition is zero: after the loop
                assert_eq!(*f, 1); // else: the loop block
            }
            _ => unreachable!(),
        }
    }
    // the ret sits in the after-loop block
    let last = m.body.insts.len() - 1;
    assert!(matches!(m.body.insts[last], Inst::Ret(_)));
    assert_eq!(m.body.block_of[last], 2);
}

#[test]
fn rhs_vars_collects_reads_everywhere() {
    let t = Term::While(
        Box::new(infix(var("a"), Operator::Add, var("b"))),
        Box::new(block(vec![mutate("a", var("c"))], lit(0))),
    );
    let vars = t.rhs_vars();
    for n in ["a", "b", "c"] {
        assert!(vars.iter().any(|v| v == n));
    }
    assert!(!vars.iter().any(|v| v == "d"));
}

#[test]
fn find_funcs_deduplicates_by_name() {
    let p = block(
        vec![semi(call("f", vec![call("g", vec![lit(1)])]))],
        call("f", vec![lit(2)]),
    );
    let sigs = p.find_funcs().expect("no conflict");
    assert_eq!(sigs.len(), 2);
    assert_eq!(sigs[0].name, "f");
    assert_eq!(sigs[0].arity, 1);
    assert_eq!(sigs[1].name, "g");
    assert_eq!(sigs[1].arity, 1);
}

#[test]
fn environment_is_persistent_under_bind() {
    let env = Env::new();
    let env2 = env.bind(&"x".to_string(), 4, backend::env::Levity::Boxed);
    assert!(env.lookup(&"x".to_string()).is_none());
    let (v, lev) = env2.lookup(&"x".to_string()).expect("bound");
    assert_eq!(v, 4);
    assert_eq!(lev, backend::env::Levity::Boxed);
    let env3 = env2.bind(&"x".to_string(), 9, backend::env::Levity::Unboxed(7));
    assert_eq!(env2.lookup(&"x".to_string()), Some((4, backend::env::Levity::Boxed)));
    assert_eq!(env3.lookup(&"x".to_string()), Some((9, backend::env::Levity::Unboxed(7))));
}

#[test]
fn call_arguments_are_lowered_in_order() {
    let p = block(
        vec![],
        call("f", vec![lit(1), infix(lit(2), Operator::Add, lit(3))]),
    );
    let m = p.gen_module().expect("program compiles");
    assert_eq!(
        m.body.insts,
        vec![
            Inst::ConstInt(1),
            Inst::ConstInt(2),
            Inst::ConstInt(3),
            Inst::Bin(Operator::Add, 1, 2),
            Inst::Call("f".to_string(), vec![0, 3]),
            Inst::Ret(4),
        ]
    );
}

#[test]
fn unboxed_merge_carries_the_value() {
    // let x = 3; while x { 0; }
    let p = block(
        vec![let_("x", lit(3))],
        Term::While(Box::new(var("x")), Box::new(block(vec![], lit(0)))),
    );
    let m = p.gen_module().expect("program compiles");
    let phis: Vec<(usize, &Inst)> = m
        .body
        .insts
        .iter()
        .enumerate()
        .filter(|(_, i)| matches!(i, Inst::Phi { .. }))
        .collect();
    assert_eq!(phis.len(), 1);
    let (phi_id, phi) = phis[0];
    match phi {
        Inst::Phi { pre_val, latch_val, .. } => {
            // the preheader edge carries x's value, the constant 3 itself
            assert!(matches!(m.body.insts[*pre_val], Inst::ConstInt(3)));
            // the body does not rebind x, so the latch carries the merge
            // point's own value
            assert_eq!(*latch_val, Some(phi_id));
        }
        _ => unreachable!(),
    }
}
