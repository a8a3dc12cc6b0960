use liquid_core::base::{BaseTy, Literal};
use liquid_core::glob_env::GlobEnv;
use liquid_core::ir::{BBlock, Func, Program, Terminator};
use liquid_core::predicate::Predicate;
use liquid_core::ty::{FuncTy, Ty};

fn tru() -> Predicate {
    Predicate::Lit(Literal::Bool(true))
}

fn one_block() -> BBlock {
    BBlock { statements: vec![], terminator: Terminator::Return(0) }
}

#[test]
fn fresh_holes_are_pairwise_distinct() {
    let prog = Program { funcs: vec![] };
    let mut genv = GlobEnv::new(&prog);
    let mut ids: Vec<u64> = Vec::new();
    for _ in 0..10 {
        match genv.new_pred() {
            Predicate::Hole(h) => {
                assert!(h.substs.is_empty());
                ids.push(h.id);
            },
            other => panic!("a fresh refinement must be a hole, got {:?}", other),
        }
    }
    for i in 0..ids.len() {
        for j in 0..ids.len() {
            if i != j {
                assert_ne!(ids[i], ids[j]);
            }
        }
    }
}

#[test]
fn glob_env_collects_declared_types_in_program_order() {
    let f0 = Func {
        ty: FuncTy::new(vec![Ty::Refined(BaseTy::Int, tru())], Ty::Refined(BaseTy::Int, tru())),
        bblocks: vec![one_block()],
    };
    let f1 = Func {
        ty: FuncTy::new(vec![], Ty::Refined(BaseTy::Bool, tru())),
        bblocks: vec![one_block()],
    };
    let prog = Program { funcs: vec![f0, f1] };
    let genv = GlobEnv::new(&prog);
    assert_eq!(genv.get_ty(0).arguments().len(), 1);
    assert_eq!(genv.get_ty(1).arguments().len(), 0);
    assert_eq!(genv.get_ty(1).return_ty().get_base(), Some(BaseTy::Bool));
}
