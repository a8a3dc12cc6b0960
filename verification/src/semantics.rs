//! An evaluation semantics for predicates over integer-valued variables,
//! and the soundness of the conservative entailment against it: whenever
//! the entailment accepts, every accepted conjunct that is not a hole is
//! true under every assignment that makes the hypotheses true. The
//! entailment may reject a true implication — it is conservative — but
//! it never accepts a false one.

use vstd::prelude::*;

use crate::base::{Literal, Variable};
use crate::entail::{
    fits_i128, spec_conjuncts, spec_decide, spec_decide_cmp, spec_entails, spec_find_pin,
    spec_holds, spec_is_cmp, spec_offset, spec_pin_of, spec_resolve_offset,
};
use crate::predicate::{BinOp, PredView};

verus! {

/// A semantic value: what a predicate can denote.
#[verifier::ext_equal]
pub enum Val {
    Unit,
    Bool(bool),
    Int(int),
}

/// The value of a literal.
pub open spec fn val_of_lit(l: Literal) -> Val {
    match l {
        Literal::Unit => Val::Unit,
        Literal::Bool(b) => Val::Bool(b),
        Literal::Int(n) => Val::Int(n as int),
    }
}

/// The value of a predicate under an assignment of integers to the
/// variables; `None` when the predicate is ill-typed under the
/// assignment or contains a hole.
pub open spec fn eval(p: PredView, sigma: spec_fn(Variable) -> int) -> Option<Val>
    decreases p,
{
    match p {
        PredView::Lit(l) => Some(val_of_lit(l)),
        PredView::Var(v) => Some(Val::Int(sigma(v))),
        PredView::BinApp(op, l, r) => match (eval(*l, sigma), eval(*r, sigma)) {
            (Some(a), Some(b)) => match op {
                BinOp::And => match (a, b) {
                    (Val::Bool(x), Val::Bool(y)) => Some(Val::Bool(x && y)),
                    _ => None,
                },
                BinOp::Eq(_) => Some(Val::Bool(a == b)),
                BinOp::Gt => match (a, b) {
                    (Val::Int(x), Val::Int(y)) => Some(Val::Bool(x > y)),
                    _ => None,
                },
                BinOp::Ge => match (a, b) {
                    (Val::Int(x), Val::Int(y)) => Some(Val::Bool(x >= y)),
                    _ => None,
                },
                BinOp::Lt => match (a, b) {
                    (Val::Int(x), Val::Int(y)) => Some(Val::Bool(x < y)),
                    _ => None,
                },
                BinOp::Le => match (a, b) {
                    (Val::Int(x), Val::Int(y)) => Some(Val::Bool(x <= y)),
                    _ => None,
                },
                BinOp::Add => match (a, b) {
                    (Val::Int(x), Val::Int(y)) => Some(Val::Int(x + y)),
                    _ => None,
                },
                BinOp::Sub => match (a, b) {
                    (Val::Int(x), Val::Int(y)) => Some(Val::Int(x - y)),
                    _ => None,
                },
            },
            _ => None,
        },
        PredView::Hole(_, _) => None,
    }
}

/// Whether a predicate is true under an assignment.
pub open spec fn truthy(p: PredView, sigma: spec_fn(Variable) -> int) -> bool {
    eval(p, sigma) == Some(Val::Bool(true))
}

/// The integer denoted by an offset form under an assignment.
pub open spec fn offset_val(o: (Option<Variable>, int), sigma: spec_fn(Variable) -> int) -> int {
    match o.0 {
        Some(v) => sigma(v) + o.1,
        None => o.1,
    }
}

/// An offset form denotes its predicate: when the procedure sees
/// `variable + constant` in a predicate, that is the predicate's value.
proof fn lemma_offset_sound(p: PredView, sigma: spec_fn(Variable) -> int)
    requires
        spec_offset(p) is Some,
    ensures
        eval(p, sigma) == Some(Val::Int(offset_val(spec_offset(p).unwrap(), sigma))),
    decreases p,
{
    match p {
        PredView::BinApp(op, l, r) => {
            if op == BinOp::Add || op == BinOp::Sub {
                lemma_offset_sound(*l, sigma);
                lemma_offset_sound(*r, sigma);
            }
        },
        _ => {},
    }
}

/// When a predicate is true, each of its conjuncts is true.
proof fn lemma_conjuncts_true(p: PredView, sigma: spec_fn(Variable) -> int, i: int)
    requires
        truthy(p, sigma),
        0 <= i < spec_conjuncts(p).len(),
    ensures
        truthy(spec_conjuncts(p)[i], sigma),
    decreases p,
{
    match p {
        PredView::BinApp(op, l, r) => {
            if op == BinOp::And {
                if i < spec_conjuncts(*l).len() {
                    lemma_conjuncts_true(*l, sigma, i);
                } else {
                    lemma_conjuncts_true(*r, sigma, i - spec_conjuncts(*l).len());
                }
            }
        },
        _ => {},
    }
}

/// A found pin is faithful: when every hypothesis is true, the bound
/// variable's value is the pin's value.
proof fn lemma_pin_sound(hyps: Seq<PredView>, sigma: spec_fn(Variable) -> int)
    requires
        spec_find_pin(hyps) is Some,
        forall|i: int| 0 <= i < hyps.len() ==> truthy(#[trigger] hyps[i], sigma),
    ensures
        sigma(Variable::Bound) == offset_val(spec_find_pin(hyps).unwrap(), sigma),
    decreases hyps.len(),
{
    let h = hyps.first();
    if spec_pin_of(h) is Some {
        let e = *h->BinApp_2;
        lemma_offset_sound(e, sigma);
        assert(truthy(h, sigma));
        assert(eval(h, sigma) == Some(Val::Bool(
            eval(*h->BinApp_1, sigma).unwrap() == eval(e, sigma).unwrap(),
        )));
    } else {
        assert forall|i: int| 0 <= i < hyps.drop_first().len() implies truthy(
            #[trigger] hyps.drop_first()[i],
            sigma,
        ) by {
            assert(hyps.drop_first()[i] == hyps[i + 1]);
        }
        lemma_pin_sound(hyps.drop_first(), sigma);
    }
}

/// An accepted conjunct that is not a hole is true under every
/// assignment that makes all hypotheses true.
proof fn lemma_holds_sound(hyps: Seq<PredView>, c: PredView, sigma: spec_fn(Variable) -> int)
    requires
        spec_holds(hyps, c),
        !(c is Hole),
        forall|i: int| 0 <= i < hyps.len() ==> truthy(#[trigger] hyps[i], sigma),
    ensures
        truthy(c, sigma),
{
    if c == PredView::Lit(Literal::Bool(true)) {
        return ;
    }
    if hyps.contains(c) {
        let i = choose|i: int| 0 <= i < hyps.len() && hyps[i] == c;
        assert(truthy(hyps[i], sigma));
        return ;
    }
    if let PredView::BinApp(op, l, r) = c {
        if spec_is_cmp(op) && spec_decide_cmp(hyps, op, *l, *r) {
            let ol = spec_offset(*l).unwrap();
            let or = spec_offset(*r).unwrap();
            lemma_offset_sound(*l, sigma);
            lemma_offset_sound(*r, sigma);
            let pin = spec_find_pin(hyps);
            let rl = spec_resolve_offset(ol, pin).unwrap();
            let rr = spec_resolve_offset(or, pin).unwrap();
            if ol.0 == Some(Variable::Bound) || or.0 == Some(Variable::Bound) {
                lemma_pin_sound(hyps, sigma);
            }
            assert(offset_val(ol, sigma) == offset_val(rl, sigma));
            assert(offset_val(or, sigma) == offset_val(rr, sigma));
            assert(offset_val(rl, sigma) - offset_val(rr, sigma) == rl.1 - rr.1);
        }
    }
}

/// Soundness of the conservative entailment: whenever `p` entails `q`
/// by the decision procedure, then under every assignment of integers
/// to the variables that makes `p` true, every conjunct of `q` that is
/// not a hole is true. Conjuncts that are holes carry no claim: they
/// are deferred to the external solver.
pub proof fn lemma_entails_sound(
    p: PredView,
    q: PredView,
    sigma: spec_fn(Variable) -> int,
    i: int,
)
    requires
        spec_entails(p, q),
        truthy(p, sigma),
        0 <= i < spec_conjuncts(q).len(),
        !(spec_conjuncts(q)[i] is Hole),
    ensures
        truthy(spec_conjuncts(q)[i], sigma),
{
    assert forall|j: int| 0 <= j < spec_conjuncts(p).len() implies truthy(
        #[trigger] spec_conjuncts(p)[j],
        sigma,
    ) by {
        lemma_conjuncts_true(p, sigma, j);
    }
    lemma_holds_sound(spec_conjuncts(p), spec_conjuncts(q)[i], sigma);
}

} // verus!
