use liquid_core::base::{Argument, BaseTy, Literal, Variable};
use liquid_core::predicate::{BinOp, Hole, Predicate};
use liquid_core::ty::{FuncTy, Ty};

fn gt_zero() -> Predicate {
    Predicate::BinApp(
        BinOp::Gt,
        Box::new(Predicate::Var(Variable::Bound)),
        Box::new(Predicate::Lit(Literal::Int(0))),
    )
}

fn tru() -> Predicate {
    Predicate::Lit(Literal::Bool(true))
}

fn arg(pos: usize, level: usize) -> Predicate {
    Predicate::Var(Variable::Arg(Argument { pos, level }))
}

#[test]
fn shape_eq_ignores_predicates() {
    let a = Ty::Refined(BaseTy::Int, gt_zero());
    let b = Ty::Refined(BaseTy::Int, tru());
    assert!(a.shape_eq(&b));
    assert!(b.shape_eq(&a));
}

#[test]
fn shape_eq_distinguishes_base_types() {
    let a = Ty::Refined(BaseTy::Int, tru());
    let b = Ty::Refined(BaseTy::Bool, tru());
    let c = Ty::Refined(BaseTy::Unit, tru());
    assert!(!a.shape_eq(&b));
    assert!(!b.shape_eq(&c));
}

#[test]
fn shape_eq_distinguishes_arity() {
    let f1 = FuncTy::new(
        vec![Ty::Refined(BaseTy::Int, tru())],
        Ty::Refined(BaseTy::Int, tru()),
    );
    let f2 = FuncTy::new(
        vec![
            Ty::Refined(BaseTy::Int, gt_zero()),
            Ty::Refined(BaseTy::Int, tru()),
        ],
        Ty::Refined(BaseTy::Int, tru()),
    );
    let f3 = FuncTy::new(
        vec![Ty::Refined(BaseTy::Int, gt_zero())],
        Ty::Refined(BaseTy::Int, gt_zero()),
    );
    assert!(!f1.shape_eq(&f2));
    assert!(f1.shape_eq(&f3));
    assert!(!Ty::Func(f1).shape_eq(&Ty::Refined(BaseTy::Int, tru())));
}

#[test]
fn get_base_and_has_base() {
    let a = Ty::Refined(BaseTy::Bool, tru());
    assert_eq!(a.get_base(), Some(BaseTy::Bool));
    assert!(a.has_base(BaseTy::Bool));
    assert!(!a.has_base(BaseTy::Int));
    let f = Ty::Func(FuncTy::new(vec![], Ty::Refined(BaseTy::Int, tru())));
    assert_eq!(f.get_base(), None);
    assert!(!f.has_base(BaseTy::Int));
}

#[test]
fn singleton_is_equality_with_the_literal() {
    let t = Ty::singleton(Literal::Int(5));
    let expected = Ty::Refined(
        BaseTy::Int,
        Predicate::BinApp(
            BinOp::Eq(BaseTy::Int),
            Box::new(Predicate::Var(Variable::Bound)),
            Box::new(Predicate::Lit(Literal::Int(5))),
        ),
    );
    assert_eq!(t, expected);
    assert_eq!(
        Ty::singleton(Literal::Bool(false)).get_base(),
        Some(BaseTy::Bool)
    );
}

#[test]
fn selfify_conjoins_equality_with_the_variable() {
    let t = Ty::Refined(BaseTy::Int, gt_zero());
    let s = t.selfify(Variable::Local(3));
    let expected = Ty::Refined(
        BaseTy::Int,
        Predicate::BinApp(
            BinOp::And,
            Box::new(gt_zero()),
            Box::new(Predicate::BinApp(
                BinOp::Eq(BaseTy::Int),
                Box::new(Predicate::Var(Variable::Bound)),
                Box::new(Predicate::Var(Variable::Local(3))),
            )),
        ),
    );
    assert_eq!(s, expected);
}

#[test]
fn selfify_leaves_function_types_unchanged() {
    let f = Ty::Func(FuncTy::new(vec![], Ty::Refined(BaseTy::Int, tru())));
    let g = Ty::Func(FuncTy::new(vec![], Ty::Refined(BaseTy::Int, tru())));
    assert_eq!(f.selfify(Variable::Local(0)), g);
}

#[test]
fn replace_variable_rewrites_occurrences() {
    let t = Ty::Refined(
        BaseTy::Int,
        Predicate::BinApp(
            BinOp::Eq(BaseTy::Int),
            Box::new(Predicate::Var(Variable::Bound)),
            Box::new(Predicate::Var(Variable::Local(1))),
        ),
    );
    let r = t.replace_variable(Variable::Local(1), Variable::Local(9));
    let expected = Ty::Refined(
        BaseTy::Int,
        Predicate::BinApp(
            BinOp::Eq(BaseTy::Int),
            Box::new(Predicate::Var(Variable::Bound)),
            Box::new(Predicate::Var(Variable::Local(9))),
        ),
    );
    assert_eq!(r, expected);
}

#[test]
fn replace_variable_records_substitution_on_holes() {
    let t = Ty::Refined(BaseTy::Int, Predicate::Hole(Hole { id: 4, substs: vec![] }));
    let r = t.replace_variable(Variable::Local(0), Variable::Local(2));
    let expected = Ty::Refined(
        BaseTy::Int,
        Predicate::Hole(Hole {
            id: 4,
            substs: vec![(Variable::Local(0), Predicate::Var(Variable::Local(2)))],
        }),
    );
    assert_eq!(r, expected);
}

#[test]
fn project_args_replaces_level_zero_occurrences_only() {
    // fn(x1: {b: int | b > 0}, x2: {b: int | arg(0)}, g: fn({b: int | arg(0)}) -> {b: int | true})
    let nested = Ty::Func(FuncTy::new(
        vec![Ty::Refined(BaseTy::Int, arg(0, 0))],
        Ty::Refined(BaseTy::Int, tru()),
    ));
    let fty = FuncTy::new(
        vec![
            Ty::Refined(BaseTy::Int, gt_zero()),
            Ty::Refined(BaseTy::Int, arg(0, 0)),
            nested,
        ],
        Ty::Refined(BaseTy::Int, arg(1, 0)),
    );
    let f = vec![
        Predicate::Var(Variable::Local(7)),
        Predicate::Var(Variable::Local(8)),
    ];
    let projected = fty.project_args(&f);
    // The second argument's occurrence of the first argument is replaced
    // by f(0).
    assert_eq!(
        projected.arguments()[1],
        Ty::Refined(BaseTy::Int, Predicate::Var(Variable::Local(7)))
    );
    // The occurrence inside the nested function type refers to the nested
    // type's own argument and is left unchanged.
    let expected_nested = Ty::Func(FuncTy::new(
        vec![Ty::Refined(BaseTy::Int, arg(0, 0))],
        Ty::Refined(BaseTy::Int, tru()),
    ));
    assert_eq!(projected.arguments()[2], expected_nested);
    // The return type's occurrence of the second argument is replaced by
    // f(1).
    assert_eq!(
        *projected.return_ty(),
        Ty::Refined(BaseTy::Int, Predicate::Var(Variable::Local(8)))
    );
}

#[test]
fn project_reaches_enclosing_arguments_inside_nested_types() {
    // An occurrence at level 1 inside a nested function type refers to
    // the outer function type's argument and is replaced there.
    let nested = Ty::Func(FuncTy::new(
        vec![Ty::Refined(BaseTy::Int, arg(0, 1))],
        Ty::Refined(BaseTy::Int, tru()),
    ));
    let fty = FuncTy::new(vec![Ty::Refined(BaseTy::Int, tru()), nested], Ty::Refined(BaseTy::Int, tru()));
    let f = vec![Predicate::Var(Variable::Local(5))];
    let projected = fty.project_args(&f);
    let expected = Ty::Func(FuncTy::new(
        vec![Ty::Refined(BaseTy::Int, Predicate::Var(Variable::Local(5)))],
        Ty::Refined(BaseTy::Int, tru()),
    ));
    assert_eq!(projected.arguments()[1], expected);
}

#[test]
fn project_records_pending_substitutions_on_holes() {
    let fty = FuncTy::new(
        vec![Ty::Refined(BaseTy::Int, tru())],
        Ty::Refined(BaseTy::Int, Predicate::Hole(Hole { id: 11, substs: vec![] })),
    );
    let f = vec![Predicate::Var(Variable::Local(0))];
    let projected = fty.project_args(&f);
    let expected_ret = Ty::Refined(
        BaseTy::Int,
        Predicate::Hole(Hole {
            id: 11,
            substs: vec![(
                Variable::Arg(Argument { pos: 0, level: 0 }),
                Predicate::Var(Variable::Local(0)),
            )],
        }),
    );
    assert_eq!(*projected.return_ty(), expected_ret);
}

#[test]
fn arguments_and_return_ty_expose_the_parts() {
    let fty = FuncTy::new(
        vec![Ty::Refined(BaseTy::Bool, tru())],
        Ty::Refined(BaseTy::Unit, tru()),
    );
    assert_eq!(fty.arguments().len(), 1);
    assert_eq!(fty.arguments()[0].get_base(), Some(BaseTy::Bool));
    assert_eq!(fty.return_ty().get_base(), Some(BaseTy::Unit));
}

#[test]
fn argument_inc_raises_the_level() {
    let a = Argument { pos: 2, level: 1 };
    assert_eq!(a.inc(3), Argument { pos: 2, level: 4 });
}
