//! A conservative, decidable entailment between refinement predicates,
//! and the subtype test built on it. The test accepts a required
//! conjunct when it is trivially true, deferred to the solver as a hole,
//! syntactically among the hypotheses, or an integer comparison that can
//! be decided after expressing both sides as one variable plus a
//! constant and substituting the pinned value of the bound variable.
//! Whenever it cannot decide, it rejects: a rejected check is a checking
//! failure, never an unsound acceptance.

use vstd::prelude::*;

use crate::base::{BaseTy, Literal, Variable};
use crate::predicate::{pred_view, preds_view, BinOp, Predicate, PredView};
use crate::ty::{Ty, TyView};

verus! {

/// Whether a mathematical integer fits the widest machine integer the
/// decision procedure computes with.
pub open spec fn fits_i128(c: int) -> bool {
    i128::MIN <= c <= i128::MAX
}

/// A predicate expressed as `variable + constant`: the variable part
/// (`None` = no variable) and the constant part. `None` as a whole means
/// the predicate has no such form that the procedure can see.
pub open spec fn spec_offset(p: PredView) -> Option<(Option<Variable>, int)>
    decreases p,
{
    match p {
        PredView::Lit(l) => match l {
            Literal::Int(n) => Some((None, n as int)),
            _ => None,
        },
        PredView::Var(v) => Some((Some(v), 0int)),
        PredView::BinApp(op, l, r) => match (spec_offset(*l), spec_offset(*r)) {
            (Some(ol), Some(or)) => {
                if op == BinOp::Add {
                    if !fits_i128(ol.1 + or.1) {
                        None
                    } else if ol.0 is None {
                        Some((or.0, ol.1 + or.1))
                    } else if or.0 is None {
                        Some((ol.0, ol.1 + or.1))
                    } else {
                        None
                    }
                } else if op == BinOp::Sub {
                    if or.0 is None && fits_i128(ol.1 - or.1) {
                        Some((ol.0, ol.1 - or.1))
                    } else {
                        None
                    }
                } else {
                    None
                }
            },
            _ => None,
        },
        PredView::Hole(_, _) => None,
    }
}

/// The pinned value of the bound variable offered by one hypothesis: a
/// hypothesis `b = e` pins the bound variable to `e`'s offset form,
/// provided that form does not mention the bound variable itself.
pub open spec fn spec_pin_of(h: PredView) -> Option<(Option<Variable>, int)> {
    match h {
        PredView::BinApp(op, l, r) => match op {
            BinOp::Eq(_) => if *l == PredView::Var(Variable::Bound) {
                match spec_offset(*r) {
                    Some(o) => if o.0 != Some(Variable::Bound) {
                        Some(o)
                    } else {
                        None
                    },
                    None => None,
                }
            } else {
                None
            },
            _ => None,
        },
        _ => None,
    }
}

/// The first pinned value of the bound variable among the hypotheses.
pub open spec fn spec_find_pin(hyps: Seq<PredView>) -> Option<(Option<Variable>, int)>
    decreases hyps.len(),
{
    if hyps.len() == 0 {
        None
    } else {
        match spec_pin_of(hyps.first()) {
            Some(o) => Some(o),
            None => spec_find_pin(hyps.drop_first()),
        }
    }
}

/// Substitute the pinned value of the bound variable into an offset
/// form: an offset over the bound variable becomes the pin's variable
/// with the constants added; any other offset passes through.
pub open spec fn spec_resolve_offset(
    o: (Option<Variable>, int),
    pin: Option<(Option<Variable>, int)>,
) -> Option<(Option<Variable>, int)> {
    if o.0 == Some(Variable::Bound) {
        match pin {
            Some(p) => if fits_i128(o.1 + p.1) {
                Some((p.0, o.1 + p.1))
            } else {
                None
            },
            None => None,
        }
    } else {
        Some(o)
    }
}

/// Decide a comparison between two constants.
pub open spec fn spec_decide(op: BinOp, c1: int, c2: int) -> bool {
    match op {
        BinOp::Eq(_) => c1 == c2,
        BinOp::Gt => c1 > c2,
        BinOp::Ge => c1 >= c2,
        BinOp::Lt => c1 < c2,
        BinOp::Le => c1 <= c2,
        _ => false,
    }
}

/// Whether a binary operation is a comparison the procedure decides.
pub open spec fn spec_is_cmp(op: BinOp) -> bool {
    match op {
        BinOp::Eq(_) | BinOp::Gt | BinOp::Ge | BinOp::Lt | BinOp::Le => true,
        _ => false,
    }
}

/// Decide a required comparison under the hypotheses: both sides must
/// reduce to offset forms over the same variable once the pinned value
/// of the bound variable is substituted; the constants then decide.
pub open spec fn spec_decide_cmp(hyps: Seq<PredView>, op: BinOp, l: PredView, r: PredView) -> bool {
    match (spec_offset(l), spec_offset(r)) {
        (Some(ol), Some(or)) => {
            let pin = spec_find_pin(hyps);
            match (spec_resolve_offset(ol, pin), spec_resolve_offset(or, pin)) {
                (Some(rl), Some(rr)) => rl.0 == rr.0 && spec_decide(op, rl.1, rr.1),
                _ => false,
            }
        },
        _ => false,
    }
}

/// The conjuncts of a predicate: a conjunction is flattened, anything
/// else is a single conjunct.
pub open spec fn spec_conjuncts(p: PredView) -> Seq<PredView>
    decreases p,
{
    match p {
        PredView::BinApp(op, l, r) => if op == BinOp::And {
            spec_conjuncts(*l) + spec_conjuncts(*r)
        } else {
            seq![p]
        },
        _ => seq![p],
    }
}

/// Whether one required conjunct is accepted under the hypotheses.
pub open spec fn spec_holds(hyps: Seq<PredView>, c: PredView) -> bool {
    ||| c == PredView::Lit(Literal::Bool(true))
    ||| c is Hole
    ||| hyps.contains(c)
    ||| match c {
        PredView::BinApp(op, l, r) => spec_is_cmp(op) && spec_decide_cmp(hyps, op, *l, *r),
        _ => false,
    }
}

/// Conservative entailment: every conjunct of `q` must be accepted
/// under the conjuncts of `p`.
pub open spec fn spec_entails(p: PredView, q: PredView) -> bool {
    forall|i: int| 0 <= i < spec_conjuncts(q).len() ==> spec_holds(
        spec_conjuncts(p),
        #[trigger] spec_conjuncts(q)[i],
    )
}

/// The admissible-subtype test: refined types must agree on the base
/// type and the actual predicate must entail the required one; function
/// types are admitted only when they are structurally identical.
pub open spec fn spec_subtype(a: TyView, b: TyView) -> bool {
    match (a, b) {
        (TyView::Refined(b1, p1), TyView::Refined(b2, p2)) => b1 == b2 && spec_entails(p1, p2),
        (TyView::Func(f1), TyView::Func(f2)) => f1 == f2,
        _ => false,
    }
}

/// Sum of two machine integers, refused when it leaves the machine
/// range.
fn add_i128(a: i128, b: i128) -> (r: Option<i128>)
    ensures
        fits_i128(a + b) ==> r == Some((a + b) as i128),
        !fits_i128(a + b) ==> r is None,
{
    if b >= 0 {
        if a <= i128::MAX - b {
            Some(a + b)
        } else {
            None
        }
    } else {
        if a >= i128::MIN - b {
            Some(a + b)
        } else {
            None
        }
    }
}

/// Difference of two machine integers, refused when it leaves the
/// machine range.
fn sub_i128(a: i128, b: i128) -> (r: Option<i128>)
    ensures
        fits_i128(a - b) ==> r == Some((a - b) as i128),
        !fits_i128(a - b) ==> r is None,
{
    if b <= 0 {
        if a <= i128::MAX + b {
            Some(a - b)
        } else {
            None
        }
    } else {
        if a >= i128::MIN + b {
            Some(a - b)
        } else {
            None
        }
    }
}

/// The offset form of a predicate, as `spec_offset` describes it.
fn offset_form(p: &Predicate) -> (r: Option<(Option<Variable>, i128)>)
    ensures
        match r {
            Some(o) => spec_offset(p@) == Some((o.0, o.1 as int)),
            None => spec_offset(p@) is None,
        },
    decreases p,
{
    match p {
        Predicate::Lit(l) => match l {
            Literal::Int(n) => Some((None, *n as i128)),
            _ => None,
        },
        Predicate::Var(v) => Some((Some(*v), 0i128)),
        Predicate::BinApp(op, l, r) => {
            proof {
                assert(decreases_to!(*p => *p->BinApp_1));
                assert(decreases_to!(*p => *p->BinApp_2));
            }
            let ol = offset_form(&**l);
            let or = offset_form(&**r);
            match (ol, or) {
                (Some(ol), Some(or)) => {
                    if *op == BinOp::Add {
                        match add_i128(ol.1, or.1) {
                            Some(c) => if matches!(ol.0, None) {
                                Some((or.0, c))
                            } else if matches!(or.0, None) {
                                Some((ol.0, c))
                            } else {
                                None
                            },
                            None => None,
                        }
                    } else if *op == BinOp::Sub {
                        match or.0 {
                            None => match sub_i128(ol.1, or.1) {
                                Some(c) => Some((ol.0, c)),
                                None => None,
                            },
                            Some(_) => None,
                        }
                    } else {
                        None
                    }
                },
                _ => None,
            }
        },
        Predicate::Hole(_) => None,
    }
}

/// The pinned value of the bound variable offered by one hypothesis, as
/// `spec_pin_of` describes it.
fn pin_of(h: &Predicate) -> (r: Option<(Option<Variable>, i128)>)
    ensures
        match r {
            Some(o) => spec_pin_of(h@) == Some((o.0, o.1 as int)),
            None => spec_pin_of(h@) is None,
        },
{
    if let Predicate::BinApp(op, l, r) = h {
        proof {
            assert(h@ == PredView::BinApp(
                *op,
                Box::new(pred_view(**l)),
                Box::new(pred_view(**r)),
            ));
        }
        if matches!(op, BinOp::Eq(_)) {
            if matches!(&**l, Predicate::Var(Variable::Bound)) {
                proof {
                    assert(pred_view(**l) == PredView::Var(Variable::Bound));
                }
                if let Some(o) = offset_form(&**r) {
                    let self_ref = match o.0 {
                        Some(v) => matches!(v, Variable::Bound),
                        None => false,
                    };
                    if !self_ref {
                        proof {
                            assert(o.0 != Some(Variable::Bound));
                            assert(spec_pin_of(h@) == Some((o.0, o.1 as int)));
                        }
                        return Some(o);
                    } else {
                        return None;
                    }
                } else {
                    return None;
                }
            } else {
                proof {
                    assert(pred_view(**l) != PredView::Var(Variable::Bound));
                }
                return None;
            }
        } else {
            return None;
        }
    }
    None
}

/// The first pinned value of the bound variable among the hypotheses,
/// as `spec_find_pin` describes it.
fn find_pin(hyps: &Vec<Predicate>) -> (r: Option<(Option<Variable>, i128)>)
    ensures
        match r {
            Some(o) => spec_find_pin(preds_view(hyps@)) == Some((o.0, o.1 as int)),
            None => spec_find_pin(preds_view(hyps@)) is None,
        },
{
    let n = hyps.len();
    let mut i: usize = 0;
    proof {
        assert(preds_view(hyps@).skip(0) =~= preds_view(hyps@));
    }
    while i < n
        invariant
            i <= n,
            n == hyps@.len(),
            spec_find_pin(preds_view(hyps@)) == spec_find_pin(preds_view(hyps@).skip(i as int)),
        decreases n - i,
    {
        proof {
            assert(preds_view(hyps@).skip(i as int).first() == pred_view(hyps@[i as int]));
            assert(preds_view(hyps@).skip(i as int).drop_first() =~= preds_view(hyps@).skip(
                i + 1,
            ));
        }
        if let Some(o) = pin_of(&hyps[i]) {
            return Some(o);
        }
        i += 1;
    }
    proof {
        assert(preds_view(hyps@).skip(n as int) =~= Seq::<PredView>::empty());
    }
    None
}

/// Whether one required conjunct is accepted under the hypotheses, as
/// `spec_holds` describes it.
fn holds(hyps: &Vec<Predicate>, c: &Predicate) -> (r: bool)
    ensures
        r == spec_holds(preds_view(hyps@), c@),
{
    if let Predicate::Lit(l) = c {
        if matches!(l, Literal::Bool(true)) {
            return true;
        }
    }
    if matches!(c, Predicate::Hole(_)) {
        return true;
    }
    let n = hyps.len();
    let mut i: usize = 0;
    while i < n
        invariant
            i <= n,
            n == hyps@.len(),
            forall|j: int| 0 <= j < i ==> preds_view(hyps@)[j] != c@,
        decreases n - i,
    {
        if hyps[i].pred_eq(c) {
            proof {
                assert(preds_view(hyps@)[i as int] == c@);
                assert(preds_view(hyps@).contains(c@));
            }
            return true;
        }
        i += 1;
    }
    proof {
        assert forall|j: int| 0 <= j < preds_view(hyps@).len() implies preds_view(hyps@)[j]
            != c@ by {}
        assert(!preds_view(hyps@).contains(c@));
    }
    if let Predicate::BinApp(op, l, r) = c {
        let is_cmp = matches!(op, BinOp::Eq(_) | BinOp::Gt | BinOp::Ge | BinOp::Lt | BinOp::Le);
        if !is_cmp {
            return false;
        }
        let ol = offset_form(&**l);
        let or = offset_form(&**r);
        match (ol, or) {
            (Some(ol), Some(or)) => {
                let pin = find_pin(hyps);
                let rl = resolve_offset(ol, pin);
                let rr = resolve_offset(or, pin);
                match (rl, rr) {
                    (Some(rl), Some(rr)) => {
                        let same_var = match (rl.0, rr.0) {
                            (None, None) => true,
                            (Some(v1), Some(v2)) => v1 == v2,
                            _ => false,
                        };
                        if !same_var {
                            return false;
                        }
                        match op {
                            BinOp::Eq(_) => rl.1 == rr.1,
                            BinOp::Gt => rl.1 > rr.1,
                            BinOp::Ge => rl.1 >= rr.1,
                            BinOp::Lt => rl.1 < rr.1,
                            BinOp::Le => rl.1 <= rr.1,
                            _ => false,
                        }
                    },
                    _ => false,
                }
            },
            _ => false,
        }
    } else {
        false
    }
}

/// Substitution of the pinned bound-variable value into an offset form,
/// as `spec_resolve_offset` describes it.
fn resolve_offset(o: (Option<Variable>, i128), pin: Option<(Option<Variable>, i128)>) -> (r:
    Option<(Option<Variable>, i128)>)
    ensures
        match r {
            Some(ro) => spec_resolve_offset(
                (o.0, o.1 as int),
                match pin {
                    Some(p) => Some((p.0, p.1 as int)),
                    None => None,
                },
            ) == Some((ro.0, ro.1 as int)),
            None => spec_resolve_offset(
                (o.0, o.1 as int),
                match pin {
                    Some(p) => Some((p.0, p.1 as int)),
                    None => None,
                },
            ) is None,
        },
{
    let is_bound = match o.0 {
        Some(v) => matches!(v, Variable::Bound),
        None => false,
    };
    if is_bound {
        match pin {
            Some(p) => match add_i128(o.1, p.1) {
                Some(c) => Some((p.0, c)),
                None => None,
            },
            None => None,
        }
    } else {
        Some(o)
    }
}

/// The conjuncts of `p`, appended to `out`.
fn push_conjuncts(p: &Predicate, out: &mut Vec<Predicate>)
    ensures
        preds_view(final(out)@) == preds_view(old(out)@) + spec_conjuncts(p@),
    decreases p,
{
    let ghost out0 = old(out)@;
    match p {
        Predicate::BinApp(op, l, r) => {
            if matches!(op, BinOp::And) {
                proof {
                    assert(decreases_to!(*p => *p->BinApp_1));
                    assert(decreases_to!(*p => *p->BinApp_2));
                }
                push_conjuncts(&**l, out);
                push_conjuncts(&**r, out);
                proof {
                    assert(preds_view(out@) =~= preds_view(out0) + spec_conjuncts(p@));
                }
            } else {
                out.push(p.clone());
                proof {
                    assert(preds_view(out@) =~= preds_view(out0) + spec_conjuncts(p@));
                }
            }
        },
        _ => {
            out.push(p.clone());
            proof {
                assert(preds_view(out@) =~= preds_view(out0) + spec_conjuncts(p@));
            }
        },
    }
}

/// Conservative entailment between two predicates, as `spec_entails`
/// describes it: every conjunct of `q` must be accepted under the
/// conjuncts of `p`.
pub fn entails(p: &Predicate, q: &Predicate) -> (r: bool)
    ensures
        r == spec_entails(p@, q@),
{
    let mut hyps: Vec<Predicate> = Vec::new();
    push_conjuncts(p, &mut hyps);
    let mut goals: Vec<Predicate> = Vec::new();
    push_conjuncts(q, &mut goals);
    proof {
        assert(preds_view(hyps@) =~= spec_conjuncts(p@));
        assert(preds_view(goals@) =~= spec_conjuncts(q@));
    }
    let n = goals.len();
    let mut i: usize = 0;
    while i < n
        invariant
            i <= n,
            n == goals@.len(),
            preds_view(goals@) == spec_conjuncts(q@),
            preds_view(hyps@) == spec_conjuncts(p@),
            forall|j: int| 0 <= j < i ==> spec_holds(
                spec_conjuncts(p@),
                #[trigger] spec_conjuncts(q@)[j],
            ),
        decreases n - i,
    {
        if !holds(&hyps, &goals[i]) {
            proof {
                assert(!spec_holds(spec_conjuncts(p@), spec_conjuncts(q@)[i as int]));
            }
            return false;
        }
        i += 1;
    }
    true
}

/// The admissible-subtype test between two types, as `spec_subtype`
/// describes it.
pub fn subtype(actual: &Ty, required: &Ty) -> (r: bool)
    ensures
        r == spec_subtype(actual@, required@),
{
    match (actual, required) {
        (Ty::Refined(b1, p1), Ty::Refined(b2, p2)) => *b1 == *b2 && entails(p1, p2),
        (Ty::Func(f1), Ty::Func(f2)) => f1.func_ty_eq(f2),
        _ => false,
    }
}

} // verus!
