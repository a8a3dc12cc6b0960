use liquid_core::base::{Argument, BaseTy, Literal, Variable};
use liquid_core::predicate::Predicate;
use liquid_core::scope::{Ident, ResolutionCtx, ResolutionError, Scope, Span};

fn ident(symbol: u64) -> Ident {
    Ident { symbol, span: Span { start: 10, end: 11 } }
}

fn arg(pos: usize, level: usize) -> Predicate {
    Predicate::Var(Variable::Arg(Argument { pos, level }))
}

#[test]
fn rebinding_shadows_and_free_restores() {
    let x = ident(1);
    let mut scope = Scope::new();
    scope.bind_ident(&x, arg(0, 0), BaseTy::Int);
    scope.bind_ident(&x, arg(1, 0), BaseTy::Bool);
    let (p, b) = scope.solve_ident(&x).unwrap();
    assert_eq!(p, arg(1, 0));
    assert_eq!(b, BaseTy::Bool);
    scope.free_ident();
    let (p, b) = scope.solve_ident(&x).unwrap();
    assert_eq!(p, arg(0, 0));
    assert_eq!(b, BaseTy::Int);
}

#[test]
fn solve_ident_misses_unbound_symbols() {
    let mut scope = Scope::new();
    scope.bind_ident(&ident(1), arg(0, 0), BaseTy::Int);
    assert!(scope.solve_ident(&ident(2)).is_none());
    assert!(Scope::new().solve_ident(&ident(1)).is_none());
}

#[test]
fn resolution_shifts_argument_levels_by_scope_index() {
    // x is bound in the scope at index 2 (0 = innermost) as the
    // occurrence of argument 0 at level 1: resolving x from the
    // innermost scope yields level 1 + 2 = 3.
    let x = ident(7);
    let mut outer = Scope::new();
    outer.bind_ident(&x, arg(0, 1), BaseTy::Int);
    let mut rcx = ResolutionCtx::new();
    rcx.push_scope(outer);
    rcx.push_scope(Scope::new());
    rcx.push_scope(Scope::new());
    let (p, b) = x.solve(&rcx).unwrap();
    assert_eq!(p, arg(0, 3));
    assert_eq!(b, BaseTy::Int);
}

#[test]
fn resolution_prefers_the_innermost_scope() {
    let x = ident(7);
    let mut outer = Scope::new();
    outer.bind_ident(&x, arg(0, 0), BaseTy::Int);
    let mut inner = Scope::new();
    inner.bind_ident(&x, Predicate::Lit(Literal::Int(3)), BaseTy::Int);
    let mut rcx = ResolutionCtx::new();
    rcx.push_scope(outer);
    rcx.push_scope(inner);
    let (p, _) = x.solve(&rcx).unwrap();
    assert_eq!(p, Predicate::Lit(Literal::Int(3)));
}

#[test]
fn resolution_leaves_other_predicates_unshifted() {
    let x = ident(4);
    let mut outer = Scope::new();
    outer.bind_ident(&x, Predicate::Var(Variable::Local(6)), BaseTy::Bool);
    let mut rcx = ResolutionCtx::new();
    rcx.push_scope(outer);
    rcx.push_scope(Scope::new());
    let (p, b) = x.solve(&rcx).unwrap();
    assert_eq!(p, Predicate::Var(Variable::Local(6)));
    assert_eq!(b, BaseTy::Bool);
}

#[test]
fn unbound_identifier_fails_with_its_span_on_the_empty_stack() {
    let x = Ident { symbol: 9, span: Span { start: 3, end: 8 } };
    let rcx = ResolutionCtx::new();
    assert_eq!(
        x.solve(&rcx),
        Err(ResolutionError::UnboundIdentifier(9, Span { start: 3, end: 8 }))
    );
}

#[test]
fn unbound_identifier_fails_with_its_span_at_any_depth() {
    let x = Ident { symbol: 9, span: Span { start: 3, end: 8 } };
    let y = ident(1);
    let mut scope = Scope::new();
    scope.bind_ident(&y, arg(0, 0), BaseTy::Int);
    let mut rcx = ResolutionCtx::new();
    rcx.push_scope(scope);
    rcx.push_scope(Scope::new());
    rcx.push_scope(Scope::new());
    assert_eq!(
        x.solve(&rcx),
        Err(ResolutionError::UnboundIdentifier(9, Span { start: 3, end: 8 }))
    );
}

#[test]
fn popped_scope_comes_back_intact() {
    let x = ident(2);
    let mut scope = Scope::new();
    scope.bind_ident(&x, arg(0, 0), BaseTy::Unit);
    let mut rcx = ResolutionCtx::new();
    rcx.push_scope(scope);
    let back = rcx.pop_scope();
    assert!(back.solve_ident(&x).is_some());
    assert_eq!(rcx.depth(), 0);
}
