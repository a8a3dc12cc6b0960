//! The refinement-predicate language: references to the refined value and
//! to enclosing function-type arguments, unresolved holes carrying pending
//! substitutions, logical connectives, and integer arithmetic.

use vstd::prelude::*;

use crate::base::{Argument, BaseTy, Literal, Variable};

verus! {

broadcast use vstd::std_specs::vec::group_vec_axioms, vstd::seq::axiom_seq_index_decreases;

/// A binary operation inside a predicate.
#[derive(Clone, Copy, PartialEq, Eq, Structural, Debug)]
pub enum BinOp {
    /// Logical conjunction.
    And,
    /// Equality at a base type.
    Eq(BaseTy),
    /// Strictly-greater comparison of integers.
    Gt,
    /// Greater-or-equal comparison of integers.
    Ge,
    /// Strictly-less comparison of integers.
    Lt,
    /// Less-or-equal comparison of integers.
    Le,
    /// Integer addition.
    Add,
    /// Integer subtraction.
    Sub,
}

/// An unresolved refinement: a placeholder to be solved by an external
/// constraint solver, carrying the substitutions that were applied to it
/// while it was still unsolved, in order of application.
#[derive(Debug, PartialEq)]
pub struct Hole {
    /// The unique identifier of the hole.
    pub id: u64,
    /// The pending substitutions, oldest first: each pair maps a variable
    /// to the predicate that replaced it.
    pub substs: Vec<(Variable, Predicate)>,
}

/// A refinement predicate.
#[derive(Debug, PartialEq)]
pub enum Predicate {
    /// A literal constant.
    Lit(Literal),
    /// A variable occurrence.
    Var(Variable),
    /// A binary operation over two predicates.
    BinApp(BinOp, Box<Predicate>, Box<Predicate>),
    /// An unresolved hole.
    Hole(Hole),
}

/// The mathematical model of a predicate tree.
#[verifier::ext_equal]
pub enum PredView {
    Lit(Literal),
    Var(Variable),
    BinApp(BinOp, Box<PredView>, Box<PredView>),
    Hole(u64, Seq<(Variable, PredView)>),
}

/// The model of a predicate: the same tree with sequences for vectors.
pub open spec fn pred_view(p: Predicate) -> PredView
    decreases p,
{
    match p {
        Predicate::Lit(l) => PredView::Lit(l),
        Predicate::Var(v) => PredView::Var(v),
        Predicate::BinApp(op, l, r) => PredView::BinApp(
            op,
            Box::new(pred_view(*l)),
            Box::new(pred_view(*r)),
        ),
        Predicate::Hole(h) => PredView::Hole(
            h.id,
            Seq::new(
                h.substs@.len(),
                |i: int| if 0 <= i < h.substs@.len() {
                    (h.substs@[i].0, pred_view(h.substs@[i].1))
                } else {
                    (Variable::Bound, PredView::Var(Variable::Bound))
                },
            ),
        ),
    }
}

impl View for Predicate {
    type V = PredView;

    open spec fn view(&self) -> PredView {
        pred_view(*self)
    }
}

impl DeepView for Predicate {
    type V = PredView;

    open spec fn deep_view(&self) -> PredView {
        pred_view(*self)
    }
}

/// Replacing `target` by `repl` throughout a predicate: every variable
/// occurrence equal to `target` is rewritten, and every hole records the
/// substitution at the end of its pending list.
pub open spec fn spec_replace_variable(p: PredView, target: Variable, repl: Variable) -> PredView
    decreases p,
{
    match p {
        PredView::Lit(l) => PredView::Lit(l),
        PredView::Var(v) => if v == target {
            PredView::Var(repl)
        } else {
            PredView::Var(v)
        },
        PredView::BinApp(op, l, r) => PredView::BinApp(
            op,
            Box::new(spec_replace_variable(*l, target, repl)),
            Box::new(spec_replace_variable(*r, target, repl)),
        ),
        PredView::Hole(id, substs) => PredView::Hole(
            id,
            substs.push((target, PredView::Var(repl))),
        ),
    }
}

/// Projecting the arguments of the function type at de Bruijn depth
/// `level`: an argument occurrence at exactly that level is replaced by
/// the predicate supplied for its position, occurrences at any other
/// level are left alone, and a hole records one pending substitution per
/// supplied position.
pub open spec fn spec_project(p: PredView, f: Seq<PredView>, level: usize) -> PredView
    decreases p,
{
    match p {
        PredView::Lit(l) => PredView::Lit(l),
        PredView::Var(v) => match v {
            Variable::Arg(a) => if a.level == level && a.pos < f.len() {
                f[a.pos as int]
            } else {
                PredView::Var(v)
            },
            _ => PredView::Var(v),
        },
        PredView::BinApp(op, l, r) => PredView::BinApp(
            op,
            Box::new(spec_project(*l, f, level)),
            Box::new(spec_project(*r, f, level)),
        ),
        PredView::Hole(id, substs) => PredView::Hole(
            id,
            substs + Seq::new(
                f.len(),
                |i: int| (Variable::Arg(Argument { pos: i as usize, level }), f[i]),
            ),
        ),
    }
}

impl Predicate {
    /// The conjunction of two predicates.
    pub fn and(self, other: Predicate) -> (r: Predicate)
        ensures
            r@ == PredView::BinApp(BinOp::And, Box::new(self@), Box::new(other@)),
    {
        Predicate::BinApp(BinOp::And, Box::new(self), Box::new(other))
    }

    /// The equality of two predicates at a base type.
    pub fn eq(self, base_ty: BaseTy, other: Predicate) -> (r: Predicate)
        ensures
            r@ == PredView::BinApp(BinOp::Eq(base_ty), Box::new(self@), Box::new(other@)),
    {
        Predicate::BinApp(BinOp::Eq(base_ty), Box::new(self), Box::new(other))
    }

    /// Replace every occurrence of the variable `target` with the variable
    /// `repl`; holes record the substitution for the solver.
    pub fn replace_variable(self, target: Variable, repl: Variable) -> (r: Predicate)
        ensures
            r@ == spec_replace_variable(self@, target, repl),
        decreases self,
    {
        let ghost orig = self@;
        match self {
            Predicate::Lit(l) => Predicate::Lit(l),
            Predicate::Var(v) => if v == target {
                Predicate::Var(repl)
            } else {
                Predicate::Var(v)
            },
            Predicate::BinApp(op, l, r) => Predicate::BinApp(
                op,
                Box::new((*l).replace_variable(target, repl)),
                Box::new((*r).replace_variable(target, repl)),
            ),
            Predicate::Hole(h) => {
                let Hole { id, mut substs } = h;
                let ghost substs0 = substs@;
                substs.push((target, Predicate::Var(repl)));
                let res = Predicate::Hole(Hole { id, substs });
                proof {
                    let sv0 = Seq::new(
                        substs0.len(),
                        |i: int| if 0 <= i < substs0.len() {
                            (substs0[i].0, pred_view(substs0[i].1))
                        } else {
                            (Variable::Bound, PredView::Var(Variable::Bound))
                        },
                    );
                    assert(orig->Hole_1 =~= sv0);
                    assert(orig =~~= PredView::Hole(id, sv0));
                    let pushed = spec_replace_variable(orig, target, repl);
                    assert(pushed == PredView::Hole(id, sv0.push((target, PredView::Var(repl)))));
                    assert forall|i: int| 0 <= i < res@->Hole_1.len() implies
                        res@->Hole_1[i] == pushed->Hole_1[i] by {
                        if i < substs0.len() {
                            assert(substs@[i] == substs0[i]);
                            assert(pushed->Hole_1[i] == sv0[i]);
                            assert(res@->Hole_1[i] == (substs0[i].0, pred_view(substs0[i].1)));
                        } else {
                            assert(substs@[i] == (target, Predicate::Var(repl)));
                            assert(pushed->Hole_1[i] == (target, PredView::Var(repl)));
                            assert(res@->Hole_1[i] == (target, pred_view(Predicate::Var(repl))));
                        }
                    }
                    assert(res@->Hole_1 =~= pushed->Hole_1);
                    assert(res@ =~~= pushed);
                }
                res
            },
        }
    }
}

/// The models of a sequence of predicates.
pub open spec fn preds_view(s: Seq<Predicate>) -> Seq<PredView> {
    Seq::new(s.len(), |i: int| pred_view(s[i]))
}

impl Clone for Predicate {
    /// Structural copy; the copy has the same model as the original.
    fn clone(&self) -> (r: Self)
        ensures
            r@ == self@,
        decreases self,
    {
        match self {
            Predicate::Lit(l) => Predicate::Lit(*l),
            Predicate::Var(v) => Predicate::Var(*v),
            Predicate::BinApp(op, l, r) => {
                let res = Predicate::BinApp(
                    *op,
                    Box::new((&**l).clone()),
                    Box::new((&**r).clone()),
                );
                proof {
                    assert(res@ =~~= self@);
                }
                res
            },
            Predicate::Hole(h) => {
                let mut substs: Vec<(Variable, Predicate)> = Vec::new();
                let n = h.substs.len();
                let mut i: usize = 0;
                while i < n
                    invariant
                        i <= n,
                        n == h.substs@.len(),
                        *self == Predicate::Hole(*h),
                        substs@.len() == i,
                        forall|j: int| 0 <= j < i ==> (#[trigger] substs@[j]).0 == h.substs@[j].0
                            && pred_view(substs@[j].1) == pred_view(h.substs@[j].1),
                    decreases n - i,
                {
                    proof {
                        assert(decreases_to!(*self => self->Hole_0.substs@[i as int].1));
                        assert(self->Hole_0.substs@[i as int] == h.substs@[i as int]);
                    }
                    let pair = &h.substs[i];
                    substs.push((pair.0, pair.1.clone()));
                    i += 1;
                }
                let res = Predicate::Hole(Hole { id: h.id, substs });
                proof {
                    assert(res@->Hole_1 =~= self@->Hole_1);
                    assert(res@ =~~= self@);
                }
                res
            },
        }
    }
}

impl Predicate {
    /// Replace every argument occurrence at de Bruijn depth `level` whose
    /// position has a supplied predicate with that predicate; holes record
    /// one pending substitution per supplied position.
    pub fn project(self, f: &Vec<Predicate>, level: usize) -> (r: Predicate)
        ensures
            r@ == spec_project(self@, preds_view(f@), level),
        decreases self,
    {
        let ghost orig = self@;
        match self {
            Predicate::Lit(l) => Predicate::Lit(l),
            Predicate::Var(v) => match v {
                Variable::Arg(a) => if a.level == level && a.pos < f.len() {
                    f[a.pos].clone()
                } else {
                    Predicate::Var(v)
                },
                _ => Predicate::Var(v),
            },
            Predicate::BinApp(op, l, r) => {
                let res = Predicate::BinApp(
                    op,
                    Box::new((*l).project(f, level)),
                    Box::new((*r).project(f, level)),
                );
                proof {
                    assert(res@ =~~= spec_project(orig, preds_view(f@), level));
                }
                res
            },
            Predicate::Hole(h) => {
                let Hole { id, mut substs } = h;
                let ghost substs0 = substs@;
                let mut pos: usize = 0;
                while pos < f.len()
                    invariant
                        pos <= f@.len(),
                        substs@.len() == substs0.len() + pos,
                        forall|j: int| 0 <= j < substs0.len() ==>
                            #[trigger] substs@[j] == substs0[j],
                        forall|k: int| 0 <= k < pos ==> {
                            &&& (#[trigger] substs@[substs0.len() + k]).0 == Variable::Arg(
                                Argument { pos: k as usize, level },
                            )
                            &&& pred_view(substs@[substs0.len() + k].1) == pred_view(f@[k])
                        },
                    decreases f@.len() - pos,
                {
                    substs.push((Variable::Arg(Argument { pos, level }), f[pos].clone()));
                    pos += 1;
                }
                let res = Predicate::Hole(Hole { id, substs });
                proof {
                    let expected = spec_project(orig, preds_view(f@), level);
                    assert(expected == PredView::Hole(
                        id,
                        orig->Hole_1 + Seq::new(
                            preds_view(f@).len(),
                            |i: int| (
                                Variable::Arg(Argument { pos: i as usize, level }),
                                preds_view(f@)[i],
                            ),
                        ),
                    ));
                    assert(orig->Hole_1.len() == substs0.len());
                    assert(res@->Hole_1.len() == substs@.len());
                    assert forall|j: int| 0 <= j < res@->Hole_1.len() implies
                        res@->Hole_1[j] == expected->Hole_1[j] by {
                        assert(res@->Hole_1[j] == (substs@[j].0, pred_view(substs@[j].1)));
                        if j < substs0.len() {
                            assert(orig->Hole_1[j] == (substs0[j].0, pred_view(substs0[j].1)));
                            assert(expected->Hole_1[j] == orig->Hole_1[j]);
                            assert(substs@[j] == substs0[j]);
                        } else {
                            let k = j - substs0.len();
                            assert(substs@[j] == substs@[substs0.len() + k]);
                            assert(expected->Hole_1[j] == (
                                Variable::Arg(Argument { pos: k as usize, level }),
                                preds_view(f@)[k],
                            ));
                            assert(preds_view(f@)[k] == pred_view(f@[k]));
                            assert(substs@[j].0 == Variable::Arg(Argument { pos: k as usize, level }));
                            assert(pred_view(substs@[j].1) == pred_view(f@[k]));
                        }
                    }
                    assert(res@->Hole_1 =~= expected->Hole_1);
                    assert(res@ =~~= expected);
                }
                res
            },
        }
    }
}

impl Predicate {
    /// Structural comparison of two predicates: true exactly when their
    /// models coincide.
    pub fn pred_eq(&self, other: &Predicate) -> (r: bool)
        ensures
            r == (self@ == other@),
        decreases self,
    {
        match (self, other) {
            (Predicate::Lit(l1), Predicate::Lit(l2)) => *l1 == *l2,
            (Predicate::Var(v1), Predicate::Var(v2)) => *v1 == *v2,
            (Predicate::BinApp(op1, l1, r1), Predicate::BinApp(op2, l2, r2)) => {
                if *op1 != *op2 {
                    return false;
                }
                proof {
                    assert(decreases_to!(*self => *self->BinApp_1));
                    assert(decreases_to!(*self => *self->BinApp_2));
                }
                let res = (&**l1).pred_eq(&**l2) && (&**r1).pred_eq(&**r2);
                proof {
                    if res {
                        assert(self@ =~~= other@);
                    }
                }
                res
            },
            (Predicate::Hole(h1), Predicate::Hole(h2)) => {
                if h1.id != h2.id {
                    return false;
                }
                let n = h1.substs.len();
                if n != h2.substs.len() {
                    proof {
                        assert(self@->Hole_1.len() != other@->Hole_1.len());
                    }
                    return false;
                }
                let mut i: usize = 0;
                while i < n
                    invariant
                        i <= n,
                        n == h1.substs@.len(),
                        n == h2.substs@.len(),
                        *self == Predicate::Hole(*h1),
                        *other == Predicate::Hole(*h2),
                        forall|j: int| 0 <= j < i ==> #[trigger] self@->Hole_1[j]
                            == other@->Hole_1[j],
                    decreases n - i,
                {
                    let p1 = &h1.substs[i];
                    let p2 = &h2.substs[i];
                    if p1.0 != p2.0 {
                        proof {
                            assert(self@->Hole_1[i as int].0 != other@->Hole_1[i as int].0);
                        }
                        return false;
                    }
                    proof {
                        assert(decreases_to!(*self => self->Hole_0.substs@[i as int].1));
                        assert(self->Hole_0.substs@[i as int] == h1.substs@[i as int]);
                    }
                    if !p1.1.pred_eq(&p2.1) {
                        proof {
                            assert(self@->Hole_1[i as int].1 != other@->Hole_1[i as int].1);
                        }
                        return false;
                    }
                    i += 1;
                }
                proof {
                    assert(self@->Hole_1 =~= other@->Hole_1);
                    assert(self@ =~~= other@);
                }
                true
            },
            _ => false,
        }
    }
}

} // verus!
