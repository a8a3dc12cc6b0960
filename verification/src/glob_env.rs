//! The global environment of one checking run: every function's declared
//! type, collected once per program, plus the generator of unique hole
//! identifiers.

use vstd::prelude::*;

use crate::ir::{FuncId, Program};
use crate::predicate::{Hole, Predicate, PredView};
use crate::ty::{func_ty_view, FuncTy, FuncTyView};

verus! {

/// The per-program type environment: the declared dependent type of each
/// function, keyed by function identity, and a monotonic counter from
/// which fresh hole identifiers are minted.
pub struct GlobEnv {
    /// The declared function types, indexed by function identity.
    pub types: Vec<FuncTy>,
    /// The next hole identifier to hand out.
    pub hole_gen: u64,
}

/// The model of a global environment.
#[verifier::ext_equal]
pub struct GlobEnvView {
    /// The declared function types, by function identity.
    pub types: Seq<FuncTyView>,
    /// The next hole identifier to be minted; every identifier handed
    /// out so far is smaller.
    pub next_hole: u64,
}

impl View for GlobEnv {
    type V = GlobEnvView;

    open spec fn view(&self) -> GlobEnvView {
        GlobEnvView {
            types: Seq::new(self.types@.len(), |i: int| func_ty_view(self.types@[i])),
            next_hole: self.hole_gen,
        }
    }
}

impl GlobEnv {
    /// Collect the declared type of every function of the program, in
    /// program order, and start the hole counter at zero.
    pub fn new(prog: &Program) -> (r: Self)
        ensures
            r@.next_hole == 0,
            r@.types.len() == prog@.len(),
            forall|i: int| 0 <= i < prog@.len() ==> #[trigger] r@.types[i] == prog@[i].ty,
    {
        let mut types: Vec<FuncTy> = Vec::new();
        let n = prog.funcs.len();
        let mut i: usize = 0;
        while i < n
            invariant
                i <= n,
                n == prog.funcs@.len(),
                types@.len() == i,
                forall|j: int| 0 <= j < i ==> func_ty_view(#[trigger] types@[j]) == prog@[j].ty,
            decreases n - i,
        {
            types.push(prog.funcs[i].ty.clone());
            i += 1;
        }
        GlobEnv { types, hole_gen: 0 }
    }

    /// Mint a fresh hole predicate with no pending substitutions. The
    /// identifier is the current counter value, which is then advanced,
    /// so no two predicates minted from the same environment share an
    /// identifier.
    pub fn new_pred(&mut self) -> (r: Predicate)
        requires
            old(self)@.next_hole < u64::MAX,
        ensures
            r@ == PredView::Hole(old(self)@.next_hole, Seq::<(
                crate::base::Variable,
                PredView,
            )>::empty()),
            final(self)@.next_hole == old(self)@.next_hole + 1,
            final(self)@.types == old(self)@.types,
    {
        let id = self.hole_gen;
        self.hole_gen = self.hole_gen + 1;
        let r = Predicate::Hole(Hole { id, substs: Vec::new() });
        proof {
            assert(r@->Hole_1 =~= Seq::<(crate::base::Variable, PredView)>::empty());
            assert(r@ =~~= PredView::Hole(id, Seq::<(
                crate::base::Variable,
                PredView,
            )>::empty()));
            assert(self@.types =~= old(self)@.types);
        }
        r
    }

    /// The declared type of a function. Asking for a function identity
    /// the program does not contain is a defect of the caller, not a
    /// user-facing error: the program is well formed by this stage.
    pub fn get_ty(&self, func_id: FuncId) -> (r: &FuncTy)
        requires
            func_id < self@.types.len(),
        ensures
            r@ == self@.types[func_id as int],
    {
        &self.types[func_id]
    }
}

/// The identifiers of any two distinct holes minted from one global
/// environment differ: the environment whose counter stands at `start`
/// gives its `i`-th minted hole the identifier `start + i`, so distinct
/// positions in the minting order carry distinct identifiers.
pub proof fn lemma_hole_ids_distinct(start: u64, i: nat, j: nat)
    requires
        i != j,
    ensures
        start + i != start + j,
{
}

} // verus!
