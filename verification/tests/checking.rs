use liquid_core::base::{Argument, BaseTy, Literal, Variable};
use liquid_core::check::{BBlockEnv, BBlockTy, CheckLocation, TyError};
use liquid_core::entail::{entails, subtype};
use liquid_core::ir::{BBlock, Func, Operand, Rvalue, Statement, Terminator};
use liquid_core::predicate::{BinOp, Hole, Predicate};
use liquid_core::ty::{FuncTy, Ty};

fn tru() -> Predicate {
    Predicate::Lit(Literal::Bool(true))
}

fn bound() -> Predicate {
    Predicate::Var(Variable::Bound)
}

fn local(x: usize) -> Predicate {
    Predicate::Var(Variable::Local(x))
}

fn arg(pos: usize, level: usize) -> Predicate {
    Predicate::Var(Variable::Arg(Argument { pos, level }))
}

fn cmp(op: BinOp, l: Predicate, r: Predicate) -> Predicate {
    Predicate::BinApp(op, Box::new(l), Box::new(r))
}

fn int_ty(p: Predicate) -> Ty {
    Ty::Refined(BaseTy::Int, p)
}

/// `fn(x: {b: int | b > 0}) -> {b: int | b > x}`, whose single block
/// assigns `x ⊕ 1` to a scratch local and returns it.
fn one_block_func(op: BinOp) -> Func {
    let ty = FuncTy::new(
        vec![int_ty(cmp(BinOp::Gt, bound(), Predicate::Lit(Literal::Int(0))))],
        int_ty(cmp(BinOp::Gt, bound(), arg(0, 0))),
    );
    let block = BBlock {
        statements: vec![Statement {
            local: 1,
            rvalue: Rvalue::BinApp(op, Operand::Local(0), Operand::Lit(Literal::Int(1))),
        }],
        terminator: Terminator::Return(1),
    };
    Func { ty, bblocks: vec![block] }
}

fn one_block_env() -> BBlockEnv {
    BBlockEnv {
        types: vec![BBlockTy {
            input: vec![
                int_ty(cmp(BinOp::Gt, bound(), Predicate::Lit(Literal::Int(0)))),
                int_ty(tru()),
            ],
        }],
    }
}

#[test]
fn returning_x_plus_one_checks() {
    let func = one_block_func(BinOp::Add);
    assert_eq!(func.check(&one_block_env()), Ok(()));
}

#[test]
fn returning_x_minus_one_fails_at_the_return() {
    let func = one_block_func(BinOp::Sub);
    match func.check(&one_block_env()) {
        Err(TyError::Subtype(expected, actual, at)) => {
            assert_eq!(at, CheckLocation::Return);
            assert_eq!(expected, int_ty(cmp(BinOp::Gt, bound(), local(0))));
            assert_eq!(
                actual,
                int_ty(cmp(
                    BinOp::Eq(BaseTy::Int),
                    bound(),
                    cmp(BinOp::Sub, local(0), Predicate::Lit(Literal::Int(1))),
                )),
            );
        },
        other => panic!("expected a subtype failure at the return, got {:?}", other),
    }
}

#[test]
fn jump_into_a_stricter_block_fails_naming_the_target() {
    // Block 0 sets its local to -1 and jumps to block 1, whose declared
    // entry type requires {b: int | b >= 0}.
    let ret_ty = int_ty(cmp(BinOp::Ge, bound(), Predicate::Lit(Literal::Int(0))));
    let ty = FuncTy::new(vec![], ret_ty);
    let b1 = BBlock {
        statements: vec![Statement {
            local: 0,
            rvalue: Rvalue::Use(Operand::Lit(Literal::Int(-1))),
        }],
        terminator: Terminator::Goto(1),
    };
    let b2 = BBlock { statements: vec![], terminator: Terminator::Return(0) };
    let func = Func { ty, bblocks: vec![b1, b2] };
    let bb_env = BBlockEnv {
        types: vec![
            BBlockTy { input: vec![int_ty(tru())] },
            BBlockTy {
                input: vec![int_ty(cmp(BinOp::Ge, bound(), Predicate::Lit(Literal::Int(0))))],
            },
        ],
    };
    match func.check(&bb_env) {
        Err(TyError::Subtype(expected, actual, at)) => {
            assert_eq!(at, CheckLocation::Jump(1));
            assert_eq!(
                expected,
                int_ty(cmp(BinOp::Ge, bound(), Predicate::Lit(Literal::Int(0)))),
            );
            assert_eq!(
                actual,
                int_ty(cmp(BinOp::Eq(BaseTy::Int), bound(), Predicate::Lit(Literal::Int(-1)))),
            );
        },
        other => panic!("expected a subtype failure at the jump, got {:?}", other),
    }
}

#[test]
fn jump_into_a_weaker_block_checks() {
    // The same two blocks, but block 0 sets its local to 1: 1 >= 0.
    let ret_ty = int_ty(cmp(BinOp::Ge, bound(), Predicate::Lit(Literal::Int(0))));
    let ty = FuncTy::new(vec![], ret_ty);
    let b1 = BBlock {
        statements: vec![Statement {
            local: 0,
            rvalue: Rvalue::Use(Operand::Lit(Literal::Int(1))),
        }],
        terminator: Terminator::Goto(1),
    };
    let b2 = BBlock { statements: vec![], terminator: Terminator::Return(0) };
    let func = Func { ty, bblocks: vec![b1, b2] };
    let bb_env = BBlockEnv {
        types: vec![
            BBlockTy { input: vec![int_ty(tru())] },
            BBlockTy {
                input: vec![int_ty(cmp(BinOp::Ge, bound(), Predicate::Lit(Literal::Int(0))))],
            },
        ],
    };
    assert_eq!(func.check(&bb_env), Ok(()));
}

#[test]
fn assigning_an_unknown_local_is_a_synthesis_failure() {
    let ty = FuncTy::new(vec![], int_ty(tru()));
    let block = BBlock {
        statements: vec![Statement {
            local: 5,
            rvalue: Rvalue::Use(Operand::Lit(Literal::Int(0))),
        }],
        terminator: Terminator::Return(0),
    };
    let func = Func { ty, bblocks: vec![block] };
    let bb_env = BBlockEnv { types: vec![BBlockTy { input: vec![int_ty(tru())] }] };
    assert_eq!(func.check(&bb_env), Err(TyError::Synthesis));
}

#[test]
fn arithmetic_on_a_boolean_is_a_synthesis_failure() {
    let ty = FuncTy::new(
        vec![Ty::Refined(BaseTy::Bool, tru())],
        int_ty(tru()),
    );
    let block = BBlock {
        statements: vec![Statement {
            local: 0,
            rvalue: Rvalue::BinApp(BinOp::Add, Operand::Local(0), Operand::Lit(Literal::Int(1))),
        }],
        terminator: Terminator::Return(0),
    };
    let func = Func { ty, bblocks: vec![block] };
    let bb_env = BBlockEnv {
        types: vec![BBlockTy { input: vec![Ty::Refined(BaseTy::Bool, tru())] }],
    };
    assert_eq!(func.check(&bb_env), Err(TyError::Synthesis));
}

#[test]
fn entailment_accepts_a_syntactic_conjunct() {
    let p = cmp(
        BinOp::And,
        cmp(BinOp::Ge, bound(), local(2)),
        cmp(BinOp::Gt, local(1), Predicate::Lit(Literal::Int(0))),
    );
    let q = cmp(BinOp::Ge, bound(), local(2));
    assert!(entails(&p, &q));
    let unrelated = cmp(BinOp::Ge, bound(), local(3));
    assert!(!entails(&p, &unrelated));
}

#[test]
fn entailment_defers_holes_and_accepts_truth() {
    let p = cmp(BinOp::Gt, bound(), Predicate::Lit(Literal::Int(0)));
    assert!(entails(&p, &Predicate::Hole(Hole { id: 0, substs: vec![] })));
    assert!(entails(&p, &tru()));
}

#[test]
fn entailment_decides_constant_comparisons() {
    let p = tru();
    assert!(entails(
        &p,
        &cmp(BinOp::Gt, Predicate::Lit(Literal::Int(3)), Predicate::Lit(Literal::Int(2))),
    ));
    assert!(!entails(
        &p,
        &cmp(BinOp::Gt, Predicate::Lit(Literal::Int(2)), Predicate::Lit(Literal::Int(2))),
    ));
    assert!(entails(
        &p,
        &cmp(BinOp::Le, local(4), cmp(BinOp::Add, local(4), Predicate::Lit(Literal::Int(1)))),
    ));
}

#[test]
fn subtype_compares_bases_and_predicates() {
    let a = int_ty(cmp(BinOp::Eq(BaseTy::Int), bound(), Predicate::Lit(Literal::Int(2))));
    let b = int_ty(cmp(BinOp::Gt, bound(), Predicate::Lit(Literal::Int(1))));
    assert!(subtype(&a, &b));
    assert!(!subtype(&b, &a));
    let c = Ty::Refined(BaseTy::Bool, tru());
    assert!(!subtype(&a, &c));
}

#[test]
fn function_subtyping_is_structural_identity() {
    let f = Ty::Func(FuncTy::new(vec![int_ty(tru())], int_ty(tru())));
    let g = Ty::Func(FuncTy::new(vec![int_ty(tru())], int_ty(tru())));
    let h = Ty::Func(FuncTy::new(vec![int_ty(bound())], int_ty(tru())));
    assert!(subtype(&f, &g));
    assert!(!subtype(&f, &h));
    assert!(!subtype(&f, &int_ty(tru())));
}

#[test]
fn a_hole_in_the_required_type_is_deferred() {
    // The declared return type is an unresolved hole: the checker emits
    // no failure for it; the constraint is the solver's to decide.
    let ty = FuncTy::new(vec![], int_ty(Predicate::Hole(Hole { id: 3, substs: vec![] })));
    let block = BBlock {
        statements: vec![Statement {
            local: 0,
            rvalue: Rvalue::Use(Operand::Lit(Literal::Int(9))),
        }],
        terminator: Terminator::Return(0),
    };
    let func = Func { ty, bblocks: vec![block] };
    let bb_env = BBlockEnv { types: vec![BBlockTy { input: vec![int_ty(tru())] }] };
    assert_eq!(func.check(&bb_env), Ok(()));
}

#[test]
fn a_selfified_local_still_matches_its_own_refinement() {
    // Copying a local through another local keeps its refinement as a
    // conjunct, so the copy still enters a block that requires it.
    let ge_zero = cmp(BinOp::Ge, bound(), Predicate::Lit(Literal::Int(0)));
    let ty = FuncTy::new(vec![int_ty(ge_zero.clone())], int_ty(tru()));
    let b1 = BBlock {
        statements: vec![Statement { local: 1, rvalue: Rvalue::Use(Operand::Local(0)) }],
        terminator: Terminator::Goto(1),
    };
    let b2 = BBlock { statements: vec![], terminator: Terminator::Return(1) };
    let func = Func { ty, bblocks: vec![b1, b2] };
    let bb_env = BBlockEnv {
        types: vec![
            BBlockTy { input: vec![int_ty(ge_zero.clone()), int_ty(tru())] },
            BBlockTy { input: vec![int_ty(tru()), int_ty(ge_zero.clone())] },
        ],
    };
    assert_eq!(func.check(&bb_env), Ok(()));
}
