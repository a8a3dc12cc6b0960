//! Lexical scopes and identifier resolution: surface identifiers are
//! turned into the (predicate, base type) pair they were bound to, with
//! the de Bruijn index of an argument reference corrected by the number
//! of binder levels crossed between use and definition.

use vstd::prelude::*;

use crate::base::{Argument, BaseTy, Variable};
use crate::predicate::{pred_view, Predicate, PredView};

verus! {

/// A source span: the byte range an identifier occupies in its source
/// text, kept so that errors can point at it.
#[derive(Clone, Copy, PartialEq, Eq, Structural, Debug)]
pub struct Span {
    /// Offset of the first byte.
    pub start: usize,
    /// Offset one past the last byte.
    pub end: usize,
}

/// A resolved surface identifier: an interned symbol with the span of
/// this occurrence.
#[derive(Clone, Copy, PartialEq, Eq, Structural, Debug)]
pub struct Ident {
    /// The interned symbol of the identifier.
    pub symbol: u64,
    /// Where this occurrence stands in the source.
    pub span: Span,
}

/// An error produced while resolving identifiers.
#[derive(Clone, Copy, PartialEq, Eq, Structural, Debug)]
pub enum ResolutionError {
    /// The identifier is not bound in any open scope; carries the symbol
    /// and the span of the unresolved occurrence.
    UnboundIdentifier(u64, Span),
}

/// A lexical scope: a stack of bindings from an identifier's symbol to
/// the predicate and base type it stands for. The last binding pushed
/// for a symbol wins on lookup.
pub struct Scope {
    /// The bindings, oldest first.
    pub stack: Vec<(u64, Predicate, BaseTy)>,
}

/// The model of a scope: its bindings, oldest first.
pub open spec fn scope_view(s: Seq<(u64, Predicate, BaseTy)>) -> Seq<(u64, PredView, BaseTy)> {
    Seq::new(s.len(), |i: int| (s[i].0, pred_view(s[i].1), s[i].2))
}

impl View for Scope {
    type V = Seq<(u64, PredView, BaseTy)>;

    open spec fn view(&self) -> Seq<(u64, PredView, BaseTy)> {
        scope_view(self.stack@)
    }
}

/// Lookup in a scope: scan the bindings from the most recent to the
/// oldest and return the first whose symbol matches.
pub open spec fn spec_solve(stack: Seq<(u64, PredView, BaseTy)>, sym: u64) -> Option<(
    PredView,
    BaseTy,
)>
    decreases stack.len(),
{
    if stack.len() == 0 {
        None
    } else if stack.last().0 == sym {
        Some((stack.last().1, stack.last().2))
    } else {
        spec_solve(stack.drop_last(), sym)
    }
}

impl Scope {
    /// Create an empty scope.
    pub fn new() -> (r: Self)
        ensures
            r@ == Seq::<(u64, PredView, BaseTy)>::empty(),
    {
        let r = Scope { stack: Vec::new() };
        proof {
            assert(r@ =~= Seq::<(u64, PredView, BaseTy)>::empty());
        }
        r
    }

    /// Bind an identifier to a predicate and a base type; the binding is
    /// pushed on top of the stack.
    pub fn bind_ident(&mut self, ident: &Ident, predicate: Predicate, base_ty: BaseTy)
        ensures
            final(self)@ == old(self)@.push((ident.symbol, predicate@, base_ty)),
    {
        let ghost stack0 = self.stack@;
        self.stack.push((ident.symbol, predicate, base_ty));
        proof {
            assert(self@ =~= scope_view(stack0).push((ident.symbol, pred_view(predicate), base_ty)));
        }
    }

    /// Free the identifier at the top of the scope's stack. The scope
    /// must not be empty: popping an empty scope is a violation of the
    /// balanced push/pop discipline the caller maintains.
    pub fn free_ident(&mut self)
        requires
            old(self)@.len() > 0,
        ensures
            final(self)@ == old(self)@.drop_last(),
    {
        let ghost stack0 = self.stack@;
        let _ = self.stack.pop();
        proof {
            assert(self@ =~= scope_view(stack0).drop_last());
        }
    }

    /// Get the predicate and base type for an identifier, or `None` if
    /// the identifier is not bound in this scope. The most recent
    /// binding for the symbol takes precedence.
    pub fn solve_ident(&self, ident: &Ident) -> (r: Option<(Predicate, BaseTy)>)
        ensures
            match r {
                Some(pb) => spec_solve(self@, ident.symbol) == Some((pb.0@, pb.1)),
                None => spec_solve(self@, ident.symbol) is None,
            },
    {
        let n = self.stack.len();
        proof {
            assert(self@.take(n as int) =~= self@);
        }
        let mut i: usize = n;
        while i > 0
            invariant
                i <= n,
                n == self.stack@.len(),
                spec_solve(self@, ident.symbol) == spec_solve(
                    self@.take(i as int),
                    ident.symbol,
                ),
            decreases i,
        {
            i = i - 1;
            let entry = &self.stack[i];
            proof {
                assert(self@.take(i + 1).last() == (
                    self.stack@[i as int].0,
                    pred_view(self.stack@[i as int].1),
                    self.stack@[i as int].2,
                ));
                assert(self@.take(i + 1).drop_last() =~= self@.take(i as int));
            }
            if entry.0 == ident.symbol {
                return Some((entry.1.clone(), entry.2));
            }
        }
        proof {
            assert(self@.take(0) =~= Seq::<(u64, PredView, BaseTy)>::empty());
        }
        None
    }
}

/// The stack of open scopes: index 0 is the innermost, currently open
/// scope; larger indices are the enclosing scopes, each corresponding to
/// one more function-type binder level between a use and its definition.
pub struct ResolutionCtx {
    /// The open scopes, outermost first; the innermost scope is last.
    pub scopes: Vec<Scope>,
}

/// The model of a resolution context: the scopes' models, innermost
/// first.
pub open spec fn ctx_view(scopes: Seq<Scope>) -> Seq<Seq<(u64, PredView, BaseTy)>> {
    Seq::new(scopes.len(), |i: int| scope_view(scopes[scopes.len() - 1 - i].stack@))
}

impl View for ResolutionCtx {
    type V = Seq<Seq<(u64, PredView, BaseTy)>>;

    open spec fn view(&self) -> Seq<Seq<(u64, PredView, BaseTy)>> {
        ctx_view(self.scopes@)
    }
}

/// Resolution through a stack of scopes: the first scope, from the
/// innermost outwards, in which the symbol is bound determines the
/// result, together with the index of that scope.
pub open spec fn spec_resolve(
    ctx: Seq<Seq<(u64, PredView, BaseTy)>>,
    sym: u64,
) -> Option<(int, (PredView, BaseTy))>
    decreases ctx.len(),
{
    if ctx.len() == 0 {
        None
    } else {
        match spec_solve(ctx.first(), sym) {
            Some(pb) => Some((0int, pb)),
            None => match spec_resolve(ctx.drop_first(), sym) {
                Some(kpb) => Some((kpb.0 + 1, kpb.1)),
                None => None,
            },
        }
    }
}

/// The de Bruijn correction applied to a resolved predicate: a predicate
/// that is an argument reference has its level raised by the index of
/// the scope it was found in; any other predicate is returned unchanged.
/// The level saturates at the largest machine integer; no real program
/// opens that many scopes.
pub open spec fn spec_shift(p: PredView, k: int) -> PredView {
    match p {
        PredView::Var(v) => match v {
            Variable::Arg(a) => if a.level + k <= usize::MAX {
                PredView::Var(Variable::Arg(Argument { pos: a.pos, level: (a.level + k) as usize }))
            } else {
                PredView::Var(Variable::Arg(Argument { pos: a.pos, level: usize::MAX }))
            },
            _ => p,
        },
        _ => p,
    }
}

impl ResolutionCtx {
    /// Create a resolution context with no open scope.
    pub fn new() -> (r: Self)
        ensures
            r@ == Seq::<Seq<(u64, PredView, BaseTy)>>::empty(),
    {
        let r = ResolutionCtx { scopes: Vec::new() };
        proof {
            assert(r@ =~= Seq::<Seq<(u64, PredView, BaseTy)>>::empty());
        }
        r
    }

    /// Open a scope: it becomes the innermost one.
    pub fn push_scope(&mut self, scope: Scope)
        ensures
            final(self)@ == seq![scope@] + old(self)@,
    {
        let ghost scopes0 = self.scopes@;
        self.scopes.push(scope);
        proof {
            assert(self@ =~= seq![scope@] + ctx_view(scopes0));
        }
    }

    /// Close the innermost scope and hand it back.
    pub fn pop_scope(&mut self) -> (r: Scope)
        requires
            old(self)@.len() > 0,
        ensures
            final(self)@ == old(self)@.drop_first(),
            r@ == old(self)@.first(),
    {
        let ghost scopes0 = self.scopes@;
        let r = self.scopes.pop().unwrap();
        proof {
            assert(self@ =~= ctx_view(scopes0).drop_first());
        }
        r
    }

    /// The number of open scopes.
    pub fn depth(&self) -> (r: usize)
        ensures
            r == self@.len(),
    {
        self.scopes.len()
    }

    /// Solve the scope at index `k` (0 = innermost) for an identifier.
    fn solve_at(&self, k: usize, ident: &Ident) -> (r: Option<(Predicate, BaseTy)>)
        requires
            k < self@.len(),
        ensures
            match r {
                Some(pb) => spec_solve(self@[k as int], ident.symbol) == Some((pb.0@, pb.1)),
                None => spec_solve(self@[k as int], ident.symbol) is None,
            },
    {
        let idx = self.scopes.len() - 1 - k;
        let scope = &self.scopes[idx];
        proof {
            assert(self@[k as int] == scope@);
        }
        scope.solve_ident(ident)
    }
}

impl Ident {
    /// Resolve this identifier through the open scopes, innermost first.
    /// On the first scope that binds the symbol, the bound predicate is
    /// returned with its argument level raised by that scope's index —
    /// each enclosing scope stands for one function-type binder level
    /// crossed — together with the base type. If no scope binds the
    /// symbol, resolution fails with an unbound-identifier error that
    /// carries this occurrence's span.
    pub fn solve(&self, rcx: &ResolutionCtx) -> (r: Result<(Predicate, BaseTy), ResolutionError>)
        ensures
            match spec_resolve(rcx@, self.symbol) {
                Some(kpb) => match r {
                    Ok(pb) => pb.0@ == spec_shift(kpb.1.0, kpb.0) && pb.1 == kpb.1.1,
                    Err(_) => false,
                },
                None => r == Err::<(Predicate, BaseTy), ResolutionError>(
                    ResolutionError::UnboundIdentifier(self.symbol, self.span),
                ),
            },
    {
        let depth = rcx.depth();
        proof {
            assert(rcx@.skip(0) =~= rcx@);
            if let Some(kpb) = spec_resolve(rcx@, self.symbol) {
                assert((kpb.0 + 0, kpb.1) == kpb);
            }
        }
        let mut k: usize = 0;
        while k < depth
            invariant
                k <= depth,
                depth == rcx@.len(),
                spec_resolve(rcx@, self.symbol) == match spec_resolve(
                    rcx@.skip(k as int),
                    self.symbol,
                ) {
                    Some(kpb) => Some((kpb.0 + k, kpb.1)),
                    None => None::<(int, (PredView, BaseTy))>,
                },
            decreases depth - k,
        {
            proof {
                assert(rcx@.skip(k as int).first() == rcx@[k as int]);
                assert(rcx@.skip(k as int).drop_first() =~= rcx@.skip(k + 1));
            }
            if let Some((predicate, base_ty)) = rcx.solve_at(k, self) {
                let shifted = match predicate {
                    Predicate::Var(Variable::Arg(a)) => {
                        let shifted_arg = if a.level <= usize::MAX - k {
                            a.inc(k)
                        } else {
                            Argument { pos: a.pos, level: usize::MAX }
                        };
                        Predicate::Var(Variable::Arg(shifted_arg))
                    },
                    p => p,
                };
                return Ok((shifted, base_ty));
            }
            k = k + 1;
        }
        proof {
            assert(rcx@.skip(depth as int) =~= Seq::<Seq<(u64, PredView, BaseTy)>>::empty());
        }
        Err(ResolutionError::UnboundIdentifier(self.symbol, self.span))
    }
}

/// Binding a symbol a second time shadows the first binding: after the
/// two binds the lookup returns the second predicate and base type, and
/// after one free it returns the first again.
pub proof fn lemma_rebind_then_free(
    stack: Seq<(u64, PredView, BaseTy)>,
    sym: u64,
    p1: PredView,
    b1: BaseTy,
    p2: PredView,
    b2: BaseTy,
)
    ensures
        spec_solve(stack.push((sym, p1, b1)).push((sym, p2, b2)), sym) == Some((p2, b2)),
        spec_solve(stack.push((sym, p1, b1)).push((sym, p2, b2)).drop_last(), sym) == Some((
            p1,
            b1,
        )),
{
    let s1 = stack.push((sym, p1, b1));
    let s2 = s1.push((sym, p2, b2));
    assert(s2.last() == (sym, p2, b2));
    assert(s2.drop_last() =~= s1);
    assert(s1.last() == (sym, p1, b1));
}

/// Resolution adds the index of the scope a symbol was found in to the
/// de Bruijn level of an argument reference: a symbol bound in the
/// scope at index `k` (0 = innermost) as the occurrence of argument
/// `pos` at level `j`, and bound in no inner scope, resolves to the
/// occurrence of argument `pos` at level `j + k` — one more level for
/// each function-type binder crossed between use and definition.
pub proof fn lemma_resolve_shifts_by_scope_index(
    ctx: Seq<Seq<(u64, PredView, BaseTy)>>,
    sym: u64,
    k: int,
    pos: usize,
    j: usize,
    b: BaseTy,
)
    requires
        0 <= k < ctx.len(),
        forall|m: int| 0 <= m < k ==> spec_solve(#[trigger] ctx[m], sym) is None,
        spec_solve(ctx[k], sym) == Some((
            PredView::Var(Variable::Arg(Argument { pos, level: j })),
            b,
        )),
        j + k <= usize::MAX,
    ensures
        spec_resolve(ctx, sym) == Some((
            k,
            (PredView::Var(Variable::Arg(Argument { pos, level: j })), b),
        )),
        spec_shift(PredView::Var(Variable::Arg(Argument { pos, level: j })), k)
            == PredView::Var(Variable::Arg(Argument { pos, level: (j + k) as usize })),
    decreases k,
{
    if k == 0 {
        assert(ctx.first() == ctx[0]);
    } else {
        assert(ctx.first() == ctx[0]);
        assert(spec_solve(ctx.first(), sym) is None);
        let tail = ctx.drop_first();
        assert forall|m: int| 0 <= m < k - 1 implies spec_solve(#[trigger] tail[m], sym)
            is None by {
            assert(tail[m] == ctx[m + 1]);
        }
        assert(tail[k - 1] == ctx[k]);
        lemma_resolve_shifts_by_scope_index(tail, sym, k - 1, pos, j, b);
    }
}

} // verus!
