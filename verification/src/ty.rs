//! Refined base types and dependent function types, with shape
//! comparison, de Bruijn projection, variable substitution, selfification
//! and singleton types.

use vstd::prelude::*;

use crate::base::{BaseTy, Literal, Variable};
use crate::predicate::{
    pred_view, preds_view, spec_project, spec_replace_variable, BinOp, Predicate, PredView,
};

verus! {

broadcast use vstd::std_specs::vec::group_vec_axioms, vstd::seq::axiom_seq_index_decreases;

/// A dependent function type: `fn(T_1, ..., T_n) -> T`.
///
/// The arguments are referred to from inside the predicates by de Bruijn
/// indexed occurrences: argument `i`'s predicate may mention arguments
/// `0..i` of this same function type at level 0, and the return type's
/// predicate may mention any of them. A function type nested inside
/// another one starts a new level: its own arguments are addressed at
/// level 0 again, and the enclosing ones one level higher.
#[derive(Debug, PartialEq)]
pub struct FuncTy {
    /// The types of the function's arguments.
    pub arguments: Vec<Ty>,
    /// The return type of the function.
    pub return_ty: Box<Ty>,
}

/// A refined type.
#[derive(Debug, PartialEq)]
pub enum Ty {
    /// A refined base type: `{ b: B | p }`.
    Refined(BaseTy, Predicate),
    /// A dependent function type.
    Func(FuncTy),
}

/// The mathematical model of a dependent function type.
#[verifier::ext_equal]
pub struct FuncTyView {
    /// The models of the argument types.
    pub args: Seq<TyView>,
    /// The model of the return type.
    pub ret: Box<TyView>,
}

/// The mathematical model of a refined type.
#[verifier::ext_equal]
pub enum TyView {
    Refined(BaseTy, PredView),
    Func(FuncTyView),
}

/// The model of a type.
pub open spec fn ty_view(t: Ty) -> TyView
    decreases t,
{
    match t {
        Ty::Refined(b, p) => TyView::Refined(b, pred_view(p)),
        Ty::Func(ft) => TyView::Func(func_ty_view(ft)),
    }
}

/// The model of a function type.
pub open spec fn func_ty_view(ft: FuncTy) -> FuncTyView
    decreases ft,
{
    FuncTyView {
        args: Seq::new(
            ft.arguments@.len(),
            |i: int| if 0 <= i < ft.arguments@.len() {
                ty_view(ft.arguments@[i])
            } else {
                TyView::Refined(BaseTy::Unit, PredView::Var(Variable::Bound))
            },
        ),
        ret: Box::new(ty_view(*ft.return_ty)),
    }
}

/// The models of a sequence of types.
pub open spec fn tys_view(s: Seq<Ty>) -> Seq<TyView> {
    Seq::new(s.len(), |i: int| ty_view(s[i]))
}

impl View for Ty {
    type V = TyView;

    open spec fn view(&self) -> TyView {
        ty_view(*self)
    }
}

impl View for FuncTy {
    type V = FuncTyView;

    open spec fn view(&self) -> FuncTyView {
        func_ty_view(*self)
    }
}

/// Shape equality of types: predicates are ignored, base types and
/// arities must agree.
pub open spec fn spec_shape_eq_ty(a: TyView, b: TyView) -> bool
    decreases a,
{
    match (a, b) {
        (TyView::Refined(b1, _), TyView::Refined(b2, _)) => b1 == b2,
        (TyView::Func(f1), TyView::Func(f2)) => spec_shape_eq_func(f1, f2),
        _ => false,
    }
}

/// Shape equality of function types: equal arity, and arguments and
/// return types of equal shape.
pub open spec fn spec_shape_eq_func(a: FuncTyView, b: FuncTyView) -> bool
    decreases a,
{
    &&& a.args.len() == b.args.len()
    &&& forall|i: int| 0 <= i < a.args.len() ==> spec_shape_eq_ty(
        #[trigger] a.args[i],
        b.args[i],
    )
    &&& spec_shape_eq_ty(*a.ret, *b.ret)
}

/// Variable replacement through every predicate of a type.
pub open spec fn spec_replace_ty(t: TyView, target: Variable, repl: Variable) -> TyView
    decreases t,
{
    match t {
        TyView::Refined(b, p) => TyView::Refined(b, spec_replace_variable(p, target, repl)),
        TyView::Func(ft) => TyView::Func(spec_replace_func(ft, target, repl)),
    }
}

/// Variable replacement through every argument and the return type.
pub open spec fn spec_replace_func(ft: FuncTyView, target: Variable, repl: Variable) -> FuncTyView
    decreases ft,
{
    FuncTyView {
        args: Seq::new(
            ft.args.len(),
            |i: int| if 0 <= i < ft.args.len() {
                spec_replace_ty(ft.args[i], target, repl)
            } else {
                ft.args[i]
            },
        ),
        ret: Box::new(spec_replace_ty(*ft.ret, target, repl)),
    }
}

/// The next de Bruijn level when entering a nested function type. The
/// level saturates at the largest machine integer; no type that fits in
/// memory nests that deep.
pub open spec fn spec_next_level(level: usize) -> usize {
    if level == usize::MAX {
        level
    } else {
        (level + 1) as usize
    }
}

/// Projection of the arguments addressed at `level` through a type:
/// a refined type's predicate is projected at that level, a nested
/// function type at one level more.
pub open spec fn spec_project_ty(t: TyView, f: Seq<PredView>, level: usize) -> TyView
    decreases t,
{
    match t {
        TyView::Refined(b, p) => TyView::Refined(b, spec_project(p, f, level)),
        TyView::Func(ft) => TyView::Func(spec_project_func(ft, f, spec_next_level(level))),
    }
}

/// Projection through every argument and the return type of a function
/// type, all at the same level.
pub open spec fn spec_project_func(ft: FuncTyView, f: Seq<PredView>, level: usize) -> FuncTyView
    decreases ft,
{
    FuncTyView {
        args: Seq::new(
            ft.args.len(),
            |i: int| if 0 <= i < ft.args.len() {
                spec_project_ty(ft.args[i], f, level)
            } else {
                ft.args[i]
            },
        ),
        ret: Box::new(spec_project_ty(*ft.ret, f, level)),
    }
}

/// The base type of a refined type; a function type has none.
pub open spec fn spec_get_base(t: TyView) -> Option<BaseTy> {
    match t {
        TyView::Refined(b, _) => Some(b),
        TyView::Func(_) => None,
    }
}

/// Selfification: `{b: B | p}` strengthened to `{b: B | p && b = var}`;
/// a function type is left unchanged.
pub open spec fn spec_selfify(t: TyView, var: Variable) -> TyView {
    match t {
        TyView::Refined(b, p) => TyView::Refined(
            b,
            PredView::BinApp(
                BinOp::And,
                Box::new(p),
                Box::new(PredView::BinApp(
                    BinOp::Eq(b),
                    Box::new(PredView::Var(Variable::Bound)),
                    Box::new(PredView::Var(var)),
                )),
            ),
        ),
        TyView::Func(ft) => TyView::Func(ft),
    }
}

/// The singleton type of a literal: `{b: B | b = lit}` at the literal's
/// base type.
pub open spec fn spec_singleton(lit: Literal) -> TyView {
    TyView::Refined(
        lit.spec_base_ty(),
        PredView::BinApp(
            BinOp::Eq(lit.spec_base_ty()),
            Box::new(PredView::Var(Variable::Bound)),
            Box::new(PredView::Lit(lit)),
        ),
    )
}

impl Clone for Ty {
    /// Structural copy; the copy has the same model as the original.
    fn clone(&self) -> (r: Self)
        ensures
            r@ == self@,
        decreases self,
    {
        match self {
            Ty::Refined(b, p) => Ty::Refined(*b, p.clone()),
            Ty::Func(ft) => {
                proof {
                    assert(decreases_to!(*self => *self->Func_0.return_ty));
                }
                Ty::Func(ft.clone())
            },
        }
    }
}

impl Clone for FuncTy {
    /// Structural copy; the copy has the same model as the original.
    fn clone(&self) -> (r: Self)
        ensures
            r@ == self@,
        decreases self,
    {
        let mut args: Vec<Ty> = Vec::new();
        let n = self.arguments.len();
        let mut i: usize = 0;
        while i < n
            invariant
                i <= n,
                n == self.arguments@.len(),
                args@.len() == i,
                forall|j: int| 0 <= j < i ==> ty_view(#[trigger] args@[j]) == ty_view(
                    self.arguments@[j],
                ),
            decreases n - i,
        {
            proof {
                assert(decreases_to!(*self => self.arguments@[i as int]));
            }
            args.push(self.arguments[i].clone());
            i += 1;
        }
        proof {
            assert(decreases_to!(*self => *self.return_ty));
        }
        let ret = (&*self.return_ty).clone();
        let res = FuncTy { arguments: args, return_ty: Box::new(ret) };
        proof {
            assert(res@.args =~= self@.args);
            assert(res@ =~~= self@);
        }
        res
    }
}

impl FuncTy {
    /// Create a new dependent function type. No validity of the de Bruijn
    /// indices inside the predicates is checked here; that is the
    /// caller's responsibility.
    pub fn new(arguments: Vec<Ty>, return_ty: Ty) -> (r: Self)
        ensures
            r@ == (FuncTyView { args: tys_view(arguments@), ret: Box::new(return_ty@) }),
    {
        let res = FuncTy { arguments, return_ty: Box::new(return_ty) };
        proof {
            assert(res@.args =~= tys_view(res.arguments@));
            assert(res@ =~~= (FuncTyView {
                args: tys_view(res.arguments@),
                ret: Box::new(ty_view(*res.return_ty)),
            }));
        }
        res
    }

    /// Return the types of the function's arguments.
    pub fn arguments(&self) -> (r: &Vec<Ty>)
        ensures
            tys_view(r@) == self@.args,
    {
        proof {
            assert(tys_view(self.arguments@) =~= self@.args);
        }
        &self.arguments
    }

    /// Return the return type of the function.
    pub fn return_ty(&self) -> (r: &Ty)
        ensures
            r@ == *self@.ret,
    {
        &self.return_ty
    }

    /// Check if two function types have the same shape, i.e. if they
    /// have the same arity and their arguments and return types have the
    /// same shape.
    pub fn shape_eq(&self, rhs: &Self) -> (r: bool)
        ensures
            r == spec_shape_eq_func(self@, rhs@),
        decreases self,
    {
        let n = self.arguments.len();
        if n != rhs.arguments.len() {
            return false;
        }
        let mut i: usize = 0;
        while i < n
            invariant
                i <= n,
                n == self.arguments@.len(),
                n == rhs.arguments@.len(),
                forall|j: int| 0 <= j < i ==> spec_shape_eq_ty(
                    #[trigger] self@.args[j],
                    rhs@.args[j],
                ),
            decreases n - i,
        {
            proof {
                assert(decreases_to!(*self => self.arguments@[i as int]));
            }
            if !self.arguments[i].shape_eq(&rhs.arguments[i]) {
                proof {
                    assert(self@.args[i as int] == ty_view(self.arguments@[i as int]));
                    assert(rhs@.args[i as int] == ty_view(rhs.arguments@[i as int]));
                }
                return false;
            }
            i += 1;
        }
        proof {
            assert(decreases_to!(*self => *self.return_ty));
        }
        (&*self.return_ty).shape_eq(&*rhs.return_ty)
    }

    /// Project the function's own arguments (level 0 from the outside)
    /// into the supplied predicates, leaving the arguments of any nested
    /// function type untouched.
    pub fn project_args(self, f: &Vec<Predicate>) -> (r: Self)
        ensures
            r@ == spec_project_func(self@, preds_view(f@), 0),
    {
        self.project(f, 0)
    }

    /// Project the argument occurrences at de Bruijn depth `level`
    /// through every argument and the return type.
    pub fn project(&self, f: &Vec<Predicate>, level: usize) -> (r: Self)
        ensures
            r@ == spec_project_func(self@, preds_view(f@), level),
        decreases self,
    {
        let mut args: Vec<Ty> = Vec::new();
        let n = self.arguments.len();
        let mut i: usize = 0;
        while i < n
            invariant
                i <= n,
                n == self.arguments@.len(),
                args@.len() == i,
                forall|j: int| 0 <= j < i ==> ty_view(#[trigger] args@[j]) == spec_project_ty(
                    self@.args[j],
                    preds_view(f@),
                    level,
                ),
            decreases n - i,
        {
            proof {
                assert(decreases_to!(*self => self.arguments@[i as int]));
            }
            args.push(self.arguments[i].project(f, level));
            i += 1;
        }
        proof {
            assert(decreases_to!(*self => *self.return_ty));
        }
        let ret = (&*self.return_ty).project(f, level);
        let res = FuncTy { arguments: args, return_ty: Box::new(ret) };
        proof {
            assert(res@.args =~= spec_project_func(self@, preds_view(f@), level).args);
            assert(res@ =~~= spec_project_func(self@, preds_view(f@), level));
        }
        res
    }

    /// Replace a variable with another variable throughout every
    /// argument and the return type.
    pub fn replace_variable(&self, target: Variable, repl: Variable) -> (r: Self)
        ensures
            r@ == spec_replace_func(self@, target, repl),
        decreases self,
    {
        let mut args: Vec<Ty> = Vec::new();
        let n = self.arguments.len();
        let mut i: usize = 0;
        while i < n
            invariant
                i <= n,
                n == self.arguments@.len(),
                args@.len() == i,
                forall|j: int| 0 <= j < i ==> ty_view(#[trigger] args@[j]) == spec_replace_ty(
                    self@.args[j],
                    target,
                    repl,
                ),
            decreases n - i,
        {
            proof {
                assert(decreases_to!(*self => self.arguments@[i as int]));
            }
            args.push(self.arguments[i].replace_variable(target, repl));
            i += 1;
        }
        proof {
            assert(decreases_to!(*self => *self.return_ty));
        }
        let ret = (&*self.return_ty).replace_variable(target, repl);
        let res = FuncTy { arguments: args, return_ty: Box::new(ret) };
        proof {
            assert(res@.args =~= spec_replace_func(self@, target, repl).args);
            assert(res@ =~~= spec_replace_func(self@, target, repl));
        }
        res
    }
}

impl Ty {
    /// Replace a variable with another variable throughout the type's
    /// predicates.
    pub fn replace_variable(&self, target: Variable, repl: Variable) -> (r: Self)
        ensures
            r@ == spec_replace_ty(self@, target, repl),
        decreases self,
    {
        match self {
            Ty::Refined(b, p) => Ty::Refined(*b, p.clone().replace_variable(target, repl)),
            Ty::Func(ft) => {
                proof {
                    assert(decreases_to!(*self => *self->Func_0.return_ty));
                }
                Ty::Func(ft.replace_variable(target, repl))
            },
        }
    }

    /// Project the argument occurrences at de Bruijn depth `level`: the
    /// predicate of a refined type is projected at that level, a nested
    /// function type one level deeper.
    pub fn project(&self, f: &Vec<Predicate>, level: usize) -> (r: Self)
        ensures
            r@ == spec_project_ty(self@, preds_view(f@), level),
        decreases self,
    {
        match self {
            Ty::Refined(b, p) => Ty::Refined(*b, p.clone().project(f, level)),
            Ty::Func(ft) => {
                proof {
                    assert(decreases_to!(*self => *self->Func_0.return_ty));
                }
                let next = if level == usize::MAX {
                    level
                } else {
                    level + 1
                };
                Ty::Func(ft.project(f, next))
            },
        }
    }

    /// Check if two types have the same shape: both refined types over
    /// the same base type, or both function types of the same shape.
    pub fn shape_eq(&self, rhs: &Ty) -> (r: bool)
        ensures
            r == spec_shape_eq_ty(self@, rhs@),
        decreases self,
    {
        match (self, rhs) {
            (Ty::Refined(b1, _), Ty::Refined(b2, _)) => *b1 == *b2,
            (Ty::Func(f1), Ty::Func(f2)) => {
                proof {
                    assert(decreases_to!(*self => *self->Func_0.return_ty));
                }
                f1.shape_eq(f2)
            },
            _ => false,
        }
    }

    /// Get the base type if the type is a refined base type; return
    /// `None` for a function type.
    pub fn get_base(&self) -> (r: Option<BaseTy>)
        ensures
            r == spec_get_base(self@),
    {
        if let Ty::Refined(base_ty, _) = self {
            Some(*base_ty)
        } else {
            None
        }
    }

    /// Check if the type is a refinement over the given base type.
    pub fn has_base(&self, target: BaseTy) -> (r: bool)
        ensures
            r == (spec_get_base(self@) == Some(target)),
    {
        if let Ty::Refined(base_ty, _) = self {
            target == *base_ty
        } else {
            false
        }
    }

    /// Selfify the type: record that its bound variable equals `var`.
    pub fn selfify(self, var: Variable) -> (r: Self)
        ensures
            r@ == spec_selfify(self@, var),
    {
        match self {
            Ty::Refined(base_ty, predicate) => Ty::Refined(
                base_ty,
                predicate.and(
                    Predicate::Var(Variable::Bound).eq(base_ty, Predicate::Var(var)),
                ),
            ),
            ty => ty,
        }
    }

    /// The singleton type of a literal: the most precise refinement the
    /// literal satisfies.
    pub fn singleton(literal: Literal) -> (r: Self)
        ensures
            r@ == spec_singleton(literal),
    {
        let base_ty = literal.base_ty();
        Ty::Refined(
            base_ty,
            Predicate::Var(Variable::Bound).eq(base_ty, Predicate::Lit(literal)),
        )
    }
}

impl Ty {
    /// Structural comparison of two types: true exactly when their
    /// models coincide.
    pub fn ty_eq(&self, other: &Ty) -> (r: bool)
        ensures
            r == (self@ == other@),
        decreases self,
    {
        match (self, other) {
            (Ty::Refined(b1, p1), Ty::Refined(b2, p2)) => {
                let res = *b1 == *b2 && p1.pred_eq(p2);
                proof {
                    if res {
                        assert(self@ =~~= other@);
                    }
                }
                res
            },
            (Ty::Func(f1), Ty::Func(f2)) => {
                proof {
                    assert(decreases_to!(*self => *self->Func_0.return_ty));
                }
                f1.func_ty_eq(f2)
            },
            _ => false,
        }
    }
}

impl FuncTy {
    /// Structural comparison of two function types: true exactly when
    /// their models coincide.
    pub fn func_ty_eq(&self, other: &FuncTy) -> (r: bool)
        ensures
            r == (self@ == other@),
        decreases self,
    {
        let n = self.arguments.len();
        if n != other.arguments.len() {
            proof {
                assert(self@.args.len() != other@.args.len());
            }
            return false;
        }
        let mut i: usize = 0;
        while i < n
            invariant
                i <= n,
                n == self.arguments@.len(),
                n == other.arguments@.len(),
                forall|j: int| 0 <= j < i ==> #[trigger] self@.args[j] == other@.args[j],
            decreases n - i,
        {
            proof {
                assert(decreases_to!(*self => self.arguments@[i as int]));
            }
            if !self.arguments[i].ty_eq(&other.arguments[i]) {
                proof {
                    assert(self@.args[i as int] != other@.args[i as int]);
                }
                return false;
            }
            i += 1;
        }
        proof {
            assert(decreases_to!(*self => *self.return_ty));
        }
        let res = (&*self.return_ty).ty_eq(&*other.return_ty);
        proof {
            if res {
                assert(self@.args =~= other@.args);
                assert(self@ =~~= other@);
            }
        }
        res
    }
}

/// The shape of a type: everything but the predicates — the base type
/// of a refined type, and the arities and shapes of a function type.
#[verifier::ext_equal]
pub enum Shape {
    Base(BaseTy),
    Func(Seq<Shape>, Box<Shape>),
}

/// The shape of a type's model.
pub open spec fn shape_of_ty(t: TyView) -> Shape
    decreases t,
{
    match t {
        TyView::Refined(b, _) => Shape::Base(b),
        TyView::Func(ft) => Shape::Func(
            Seq::new(
                ft.args.len(),
                |i: int| if 0 <= i < ft.args.len() {
                    shape_of_ty(ft.args[i])
                } else {
                    Shape::Base(BaseTy::Unit)
                },
            ),
            Box::new(shape_of_ty(*ft.ret)),
        ),
    }
}

/// Shape equality compares exactly the shapes: two types are
/// shape-equal precisely when their shapes coincide, whatever their
/// predicates are; two types whose base types or arities differ are
/// never shape-equal.
pub proof fn lemma_shape_eq_characterizes(a: TyView, b: TyView)
    ensures
        spec_shape_eq_ty(a, b) <==> shape_of_ty(a) == shape_of_ty(b),
    decreases a,
{
    match (a, b) {
        (TyView::Func(f1), TyView::Func(f2)) => {
            lemma_shape_eq_characterizes(*f1.ret, *f2.ret);
            if spec_shape_eq_func(f1, f2) {
                assert forall|i: int| 0 <= i < f1.args.len() implies shape_of_ty(
                    #[trigger] f1.args[i],
                ) == shape_of_ty(f2.args[i]) by {
                    lemma_shape_eq_characterizes(f1.args[i], f2.args[i]);
                }
                assert(shape_of_ty(a)->Func_0 =~= shape_of_ty(b)->Func_0);
                assert(shape_of_ty(a) =~~= shape_of_ty(b));
            }
            if shape_of_ty(a) == shape_of_ty(b) {
                assert(shape_of_ty(a)->Func_0.len() == shape_of_ty(b)->Func_0.len());
                assert(f1.args.len() == f2.args.len());
                assert forall|i: int| 0 <= i < f1.args.len() implies spec_shape_eq_ty(
                    #[trigger] f1.args[i],
                    f2.args[i],
                ) by {
                    assert(shape_of_ty(a)->Func_0[i] == shape_of_ty(b)->Func_0[i]);
                    assert(shape_of_ty(f1.args[i]) == shape_of_ty(f2.args[i]));
                    lemma_shape_eq_characterizes(f1.args[i], f2.args[i]);
                }
                assert(spec_shape_eq_func(f1, f2));
            }
        },
        _ => {},
    }
}

/// Projecting a function type's arguments touches exactly the
/// occurrences at the function type's own level: in a schematic
/// function type whose second argument's predicate is the occurrence of
/// the first argument, projection replaces that occurrence with the
/// supplied predicate for position 0, while the same occurrence written
/// inside a nested function-type argument — where it refers to the
/// nested function type's own first argument — is left unchanged.
pub proof fn lemma_project_args_level(f: Seq<PredView>, t1: TyView, b2: BaseTy, b3: BaseTy, b4: BaseTy)
    requires
        f.len() >= 1,
    ensures
        ({
            let occ = PredView::Var(Variable::Arg(crate::base::Argument { pos: 0, level: 0 }));
            let nested = FuncTyView {
                args: seq![TyView::Refined(b3, occ)],
                ret: Box::new(TyView::Refined(b4, PredView::Var(Variable::Bound))),
            };
            let fty = FuncTyView {
                args: seq![t1, TyView::Refined(b2, occ), TyView::Func(nested)],
                ret: Box::new(TyView::Refined(b4, PredView::Var(Variable::Bound))),
            };
            let res = spec_project_func(fty, f, 0);
            &&& res.args[1] == TyView::Refined(b2, f[0])
            &&& res.args[2] == TyView::Func(FuncTyView {
                args: seq![TyView::Refined(b3, occ)],
                ret: Box::new(TyView::Refined(b4, PredView::Var(Variable::Bound))),
            })
        }),
{
    let occ = PredView::Var(Variable::Arg(crate::base::Argument { pos: 0, level: 0 }));
    let nested = FuncTyView {
        args: seq![TyView::Refined(b3, occ)],
        ret: Box::new(TyView::Refined(b4, PredView::Var(Variable::Bound))),
    };
    let fty = FuncTyView {
        args: seq![t1, TyView::Refined(b2, occ), TyView::Func(nested)],
        ret: Box::new(TyView::Refined(b4, PredView::Var(Variable::Bound))),
    };
    let res = spec_project_func(fty, f, 0);
    assert(res.args[1] == spec_project_ty(fty.args[1], f, 0));
    assert(spec_project(occ, f, 0) == f[0]);
    assert(res.args[2] == spec_project_ty(fty.args[2], f, 0));
    assert(spec_next_level(0) == 1usize);
    let resn = spec_project_func(nested, f, 1);
    assert(resn.args[0] == spec_project_ty(nested.args[0], f, 1));
    assert(spec_project(occ, f, 1) == occ);
    assert(resn.args =~= nested.args);
    assert(resn =~~= nested);
}

} // verus!
