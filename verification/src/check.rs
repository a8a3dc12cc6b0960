//! The flow-sensitive checking engine: statements of a basic block
//! transform a running typed environment forward, and the terminator is
//! checked against the declared entry type of its jump target or the
//! function's declared return type, through the admissible-subtype test.

use vstd::prelude::*;

use crate::base::{BaseTy, Variable};
use crate::entail::{spec_subtype, subtype};
use crate::ir::{BBlock, BBlockId, BBlockView, Func, Operand, Rvalue, Statement, Terminator};
use crate::predicate::{BinOp, Predicate, PredView};
use crate::ty::{
    spec_get_base, spec_project_ty, spec_selfify, spec_singleton, ty_view, tys_view, Ty, TyView,
};

verus! {

/// Where a failed check happened.
#[derive(Clone, Copy, PartialEq, Eq, Structural, Debug)]
pub enum CheckLocation {
    /// At the return terminator of the block.
    Return,
    /// At the jump to the named basic block.
    Jump(BBlockId),
}

/// An error produced while checking a function.
#[derive(Debug, PartialEq)]
pub enum TyError {
    /// A statement could not be assigned a type in the running
    /// environment.
    Synthesis,
    /// The running type was not an admissible subtype of the required
    /// type: carries the required type, the running type, and where the
    /// check failed.
    Subtype(Ty, Ty, CheckLocation),
}

/// The outcome a check is specified to produce.
#[verifier::ext_equal]
pub enum Outcome {
    /// The check passed.
    Passed,
    /// A statement could not be assigned a type.
    SynthFailed,
    /// A required subtyping did not hold: the required type, the actual
    /// type, and the location.
    SubtypeFailed(TyView, TyView, CheckLocation),
}

/// The declared entry type of a basic block: the type of each local
/// variable on entry to the block.
#[derive(Debug)]
pub struct BBlockTy {
    /// The type of each local, by local index.
    pub input: Vec<Ty>,
}

impl View for BBlockTy {
    type V = Seq<TyView>;

    open spec fn view(&self) -> Seq<TyView> {
        tys_view(self.input@)
    }
}

impl Clone for BBlockTy {
    /// Structural copy; the copy has the same model as the original.
    fn clone(&self) -> (r: Self)
        ensures
            r@ == self@,
    {
        let r = BBlockTy { input: clone_tys(&self.input) };
        proof {
            assert(r@ =~= self@);
        }
        r
    }
}

/// The per-function block environment: the declared entry type of each
/// basic block, keyed by block identity.
pub struct BBlockEnv {
    /// The entry types, indexed by block identity.
    pub types: Vec<BBlockTy>,
}

impl View for BBlockEnv {
    type V = Seq<Seq<TyView>>;

    open spec fn view(&self) -> Seq<Seq<TyView>> {
        Seq::new(self.types@.len(), |i: int| self.types@[i]@)
    }
}

impl BBlockEnv {
    /// The declared entry type of a basic block. Asking for a block the
    /// function does not contain is a defect of the caller: the graph is
    /// well formed by this stage.
    pub fn get_ty(&self, bb_id: BBlockId) -> (r: &BBlockTy)
        requires
            bb_id < self@.len(),
        ensures
            r@ == self@[bb_id as int],
    {
        &self.types[bb_id]
    }
}

/// Copy of a vector of types, element for element.
fn clone_tys(tys: &Vec<Ty>) -> (r: Vec<Ty>)
    ensures
        tys_view(r@) == tys_view(tys@),
        r@.len() == tys@.len(),
{
    let mut out: Vec<Ty> = Vec::new();
    let n = tys.len();
    let mut i: usize = 0;
    while i < n
        invariant
            i <= n,
            n == tys@.len(),
            out@.len() == i,
            forall|j: int| 0 <= j < i ==> ty_view(#[trigger] out@[j]) == ty_view(tys@[j]),
        decreases n - i,
    {
        out.push(tys[i].clone());
        i += 1;
    }
    proof {
        assert(tys_view(out@) =~= tys_view(tys@));
    }
    out
}

/// The predicate standing for an operand: the literal itself, or a
/// reference to the local variable.
pub open spec fn spec_operand_pred(o: Operand) -> PredView {
    match o {
        Operand::Lit(l) => PredView::Lit(l),
        Operand::Local(x) => PredView::Var(Variable::Local(x)),
    }
}

/// The base type of an operand in an environment, if it has one.
pub open spec fn spec_operand_base(env: Seq<TyView>, o: Operand) -> Option<BaseTy> {
    match o {
        Operand::Lit(l) => Some(l.spec_base_ty()),
        Operand::Local(x) => if x < env.len() {
            spec_get_base(env[x as int])
        } else {
            None
        },
    }
}

/// The type synthesized for an rvalue in an environment: the singleton
/// type of a literal, the selfified type of a local, and for an
/// arithmetic operation on integer operands the type whose bound
/// variable equals the operation applied to the operands. `None` is a
/// synthesis failure.
pub open spec fn spec_synth_rvalue(env: Seq<TyView>, rv: Rvalue) -> Option<TyView> {
    match rv {
        Rvalue::Use(o) => match o {
            Operand::Lit(l) => Some(spec_singleton(l)),
            Operand::Local(x) => if x < env.len() {
                Some(spec_selfify(env[x as int], Variable::Local(x)))
            } else {
                None
            },
        },
        Rvalue::BinApp(op, o1, o2) => {
            if (op == BinOp::Add || op == BinOp::Sub)
                && spec_operand_base(env, o1) == Some(BaseTy::Int)
                && spec_operand_base(env, o2) == Some(BaseTy::Int) {
                Some(TyView::Refined(
                    BaseTy::Int,
                    PredView::BinApp(
                        BinOp::Eq(BaseTy::Int),
                        Box::new(PredView::Var(Variable::Bound)),
                        Box::new(PredView::BinApp(
                            op,
                            Box::new(spec_operand_pred(o1)),
                            Box::new(spec_operand_pred(o2)),
                        )),
                    ),
                ))
            } else {
                None
            }
        },
    }
}

/// The environment after a statement: the assigned local takes the
/// synthesized type of the rvalue. `None` is a synthesis failure.
pub open spec fn spec_synth_statement(env: Seq<TyView>, st: Statement) -> Option<Seq<TyView>> {
    if st.local < env.len() {
        match spec_synth_rvalue(env, st.rvalue) {
            Some(t) => Some(env.update(st.local as int, t)),
            None => None,
        }
    } else {
        None
    }
}

/// The environment after a sequence of statements, run in order; the
/// first failing statement aborts the run.
pub open spec fn spec_run_statements(env: Seq<TyView>, stmts: Seq<Statement>) -> Option<
    Seq<TyView>,
>
    decreases stmts.len(),
{
    if stmts.len() == 0 {
        Some(env)
    } else {
        match spec_synth_statement(env, stmts.first()) {
            Some(env2) => spec_run_statements(env2, stmts.drop_first()),
            None => None,
        }
    }
}

/// The first local, from `i` on, whose running type is not an
/// admissible subtype of its required type.
pub open spec fn spec_first_fail(actual: Seq<TyView>, req: Seq<TyView>, i: int) -> Option<int>
    decreases req.len() - i,
{
    if i < 0 || i >= req.len() {
        None
    } else if !spec_subtype(actual[i], req[i]) {
        Some(i)
    } else {
        spec_first_fail(actual, req, i + 1)
    }
}

/// Checking a jump: the running type of every local must be an
/// admissible subtype of the target block's declared entry type.
pub open spec fn spec_check_jump(
    target: BBlockId,
    actual: Seq<TyView>,
    bb_env: Seq<Seq<TyView>>,
) -> Outcome {
    if target >= bb_env.len() || bb_env[target as int].len() != actual.len() {
        Outcome::SynthFailed
    } else {
        match spec_first_fail(actual, bb_env[target as int], 0) {
            None => Outcome::Passed,
            Some(i) => Outcome::SubtypeFailed(
                bb_env[target as int][i],
                actual[i],
                CheckLocation::Jump(target),
            ),
        }
    }
}

/// Checking a terminator: a return checks the returned local against
/// the declared return type, a jump checks the whole environment
/// against the target's declared entry type.
pub open spec fn spec_check_terminator(
    term: Terminator,
    env: Seq<TyView>,
    bb_env: Seq<Seq<TyView>>,
    ret: TyView,
) -> Outcome {
    match term {
        Terminator::Return(l) => if l < env.len() {
            if spec_subtype(env[l as int], ret) {
                Outcome::Passed
            } else {
                Outcome::SubtypeFailed(ret, env[l as int], CheckLocation::Return)
            }
        } else {
            Outcome::SynthFailed
        },
        Terminator::Goto(b) => spec_check_jump(b, env, bb_env),
    }
}

/// Checking one basic block: run the statements forward from the
/// declared entry type, then check the terminator.
pub open spec fn spec_check_bblock(
    bb: BBlockView,
    entry: Seq<TyView>,
    bb_env: Seq<Seq<TyView>>,
    ret: TyView,
) -> Outcome {
    match spec_run_statements(entry, bb.statements) {
        None => Outcome::SynthFailed,
        Some(env) => spec_check_terminator(bb.terminator, env, bb_env, ret),
    }
}

impl Statement {
    /// Synthesize the environment after this statement: the assigned
    /// local takes the type synthesized for the rvalue, every other
    /// local keeps its type.
    pub fn synth(&self, env: &Vec<Ty>) -> (r: Result<Vec<Ty>, TyError>)
        ensures
            match spec_synth_statement(tys_view(env@), *self) {
                Some(env2) => match r {
                    Ok(out) => tys_view(out@) == env2 && out@.len() == env@.len(),
                    Err(_) => false,
                },
                None => r == Err::<Vec<Ty>, TyError>(TyError::Synthesis),
            },
    {
        if self.local >= env.len() {
            return Err(TyError::Synthesis);
        }
        let t = match synth_rvalue(env, &self.rvalue) {
            Some(t) => t,
            None => {
                return Err(TyError::Synthesis);
            },
        };
        let mut out = clone_tys(env);
        out[self.local] = t;
        proof {
            assert(tys_view(out@) =~= tys_view(env@).update(
                self.local as int,
                spec_synth_rvalue(tys_view(env@), self.rvalue).unwrap(),
            ));
        }
        Ok(out)
    }
}

/// The type synthesized for an rvalue, as `spec_synth_rvalue` describes
/// it.
fn synth_rvalue(env: &Vec<Ty>, rv: &Rvalue) -> (r: Option<Ty>)
    ensures
        match spec_synth_rvalue(tys_view(env@), *rv) {
            Some(t) => match r {
                Some(ty) => ty@ == t,
                None => false,
            },
            None => r is None,
        },
{
    match rv {
        Rvalue::Use(o) => match o {
            Operand::Lit(l) => Some(Ty::singleton(*l)),
            Operand::Local(x) => if *x < env.len() {
                proof {
                    assert(tys_view(env@)[*x as int] == ty_view(env@[*x as int]));
                }
                Some(env[*x].clone().selfify(Variable::Local(*x)))
            } else {
                None
            },
        },
        Rvalue::BinApp(op, o1, o2) => {
            let arith = matches!(op, BinOp::Add | BinOp::Sub);
            if !arith {
                return None;
            }
            let b1 = operand_base(env, o1);
            let b2 = operand_base(env, o2);
            let int_ok = matches!(b1, Some(BaseTy::Int)) && matches!(b2, Some(BaseTy::Int));
            if !int_ok {
                return None;
            }
            let lhs = operand_pred(o1);
            let rhs = operand_pred(o2);
            let body = Predicate::BinApp(*op, Box::new(lhs), Box::new(rhs));
            let p = Predicate::Var(Variable::Bound).eq(BaseTy::Int, body);
            Some(Ty::Refined(BaseTy::Int, p))
        },
    }
}

/// The predicate standing for an operand.
fn operand_pred(o: &Operand) -> (r: Predicate)
    ensures
        r@ == spec_operand_pred(*o),
{
    match o {
        Operand::Lit(l) => Predicate::Lit(*l),
        Operand::Local(x) => Predicate::Var(Variable::Local(*x)),
    }
}

/// The base type of an operand in an environment.
fn operand_base(env: &Vec<Ty>, o: &Operand) -> (r: Option<BaseTy>)
    ensures
        r == spec_operand_base(tys_view(env@), *o),
{
    match o {
        Operand::Lit(l) => Some(l.base_ty()),
        Operand::Local(x) => if *x < env.len() {
            proof {
                assert(tys_view(env@)[*x as int] == ty_view(env@[*x as int]));
            }
            env[*x].get_base()
        } else {
            None
        },
    }
}

/// Checking a jump target: every local's running type must be an
/// admissible subtype of the target block's declared entry type, as
/// `spec_check_jump` describes it.
pub fn check_jump(target: BBlockId, running: &Vec<Ty>, bb_env: &BBlockEnv) -> (r: Result<
    (),
    TyError,
>)
    requires
        target < bb_env@.len(),
    ensures
        match spec_check_jump(target, tys_view(running@), bb_env@) {
            Outcome::Passed => r is Ok,
            Outcome::SynthFailed => r == Err::<(), TyError>(TyError::Synthesis),
            Outcome::SubtypeFailed(e, a, loc) => match r {
                Err(err) => match err {
                    TyError::Subtype(te, ta, l) => te@ == e && ta@ == a && l == loc,
                    _ => false,
                },
                Ok(_) => false,
            },
        },
{
    let req = bb_env.get_ty(target);
    let n = req.input.len();
    if n != running.len() {
        return Err(TyError::Synthesis);
    }
    let mut i: usize = 0;
    while i < n
        invariant
            i <= n,
            n == req.input@.len(),
            n == running@.len(),
            req@ == bb_env@[target as int],
            target < bb_env@.len(),
            spec_first_fail(tys_view(running@), req@, 0) == spec_first_fail(
                tys_view(running@),
                req@,
                i as int,
            ),
        decreases n - i,
    {
        proof {
            assert(req@[i as int] == ty_view(req.input@[i as int]));
            assert(tys_view(running@)[i as int] == ty_view(running@[i as int]));
        }
        if !subtype(&running[i], &req.input[i]) {
            return Err(TyError::Subtype(
                req.input[i].clone(),
                running[i].clone(),
                CheckLocation::Jump(target),
            ));
        }
        i += 1;
    }
    Ok(())
}

impl BBlock {
    /// Check this basic block against its declared entry type: run the
    /// statements forward, then check the terminator against the block
    /// environment and the declared return type.
    pub fn check(&self, ty: &BBlockTy, bb_env: &BBlockEnv, return_ty: &Ty) -> (r: Result<
        (),
        TyError,
    >)
        requires
            match self@.terminator {
                Terminator::Goto(b) => b < bb_env@.len(),
                Terminator::Return(_) => true,
            },
        ensures
            match spec_check_bblock(self@, ty@, bb_env@, return_ty@) {
                Outcome::Passed => r is Ok,
                Outcome::SynthFailed => r == Err::<(), TyError>(TyError::Synthesis),
                Outcome::SubtypeFailed(e, a, loc) => match r {
                    Err(err) => match err {
                        TyError::Subtype(te, ta, l) => te@ == e && ta@ == a && l == loc,
                        _ => false,
                    },
                    Ok(_) => false,
                },
            },
    {
        let mut cur = clone_tys(&ty.input);
        let n = self.statements.len();
        let mut i: usize = 0;
        proof {
            assert(self@.statements.skip(0) =~= self@.statements);
        }
        while i < n
            invariant
                i <= n,
                n == self.statements@.len(),
                spec_run_statements(ty@, self@.statements) == spec_run_statements(
                    tys_view(cur@),
                    self@.statements.skip(i as int),
                ),
            decreases n - i,
        {
            proof {
                assert(self@.statements.skip(i as int).first() == self.statements@[i as int]);
                assert(self@.statements.skip(i as int).drop_first() =~= self@.statements.skip(
                    i + 1,
                ));
            }
            cur = match self.statements[i].synth(&cur) {
                Ok(next) => next,
                Err(e) => {
                    return Err(e);
                },
            };
            i += 1;
        }
        proof {
            assert(self@.statements.skip(n as int) =~= Seq::<Statement>::empty());
        }
        match self.terminator {
            Terminator::Return(l) => {
                if l >= cur.len() {
                    return Err(TyError::Synthesis);
                }
                proof {
                    assert(tys_view(cur@)[l as int] == ty_view(cur@[l as int]));
                }
                if subtype(&cur[l], return_ty) {
                    Ok(())
                } else {
                    Err(TyError::Subtype(
                        return_ty.clone(),
                        cur[l].clone(),
                        CheckLocation::Return,
                    ))
                }
            },
            Terminator::Goto(b) => check_jump(b, &cur, bb_env),
        }
    }
}

/// The predicates that project a function type's own arguments onto the
/// locals that hold them on entry: argument `i` becomes local `i`.
pub open spec fn spec_arg_locals(n: int) -> Seq<PredView> {
    Seq::new((if n < 0 { 0int } else { n }) as nat, |i: int| PredView::Var(Variable::Local(i as usize)))
}

/// Checking the blocks of a function from index `i` on: the first
/// failing block decides the outcome.
pub open spec fn spec_check_func_blocks(
    blocks: Seq<BBlockView>,
    bb_env: Seq<Seq<TyView>>,
    ret: TyView,
    i: int,
) -> Outcome
    decreases blocks.len() - i,
{
    if i < 0 || i >= blocks.len() {
        Outcome::Passed
    } else {
        match spec_check_bblock(blocks[i], bb_env[i], bb_env, ret) {
            Outcome::Passed => spec_check_func_blocks(blocks, bb_env, ret, i + 1),
            out => out,
        }
    }
}

/// Checking a whole function: every basic block is checked against its
/// declared entry type, with the declared return type's argument
/// references projected onto the locals that hold the arguments.
pub open spec fn spec_check_func(
    f: crate::ir::FuncView,
    bb_env: Seq<Seq<TyView>>,
) -> Outcome {
    spec_check_func_blocks(
        f.bblocks,
        bb_env,
        spec_project_ty(*f.ty.ret, spec_arg_locals(f.ty.args.len() as int), 0),
        0,
    )
}

impl Func {
    /// Check every basic block of this function against its declared
    /// entry type from the block environment; the first failure aborts
    /// the check.
    pub fn check(&self, bb_env: &BBlockEnv) -> (r: Result<(), TyError>)
        requires
            bb_env@.len() == self@.bblocks.len(),
            forall|i: int| 0 <= i < self@.bblocks.len() ==> match (#[trigger] self@.bblocks[i]).terminator {
                Terminator::Goto(b) => b < bb_env@.len(),
                Terminator::Return(_) => true,
            },
        ensures
            match spec_check_func(self@, bb_env@) {
                Outcome::Passed => r is Ok,
                Outcome::SynthFailed => r == Err::<(), TyError>(TyError::Synthesis),
                Outcome::SubtypeFailed(e, a, loc) => match r {
                    Err(err) => match err {
                        TyError::Subtype(te, ta, l) => te@ == e && ta@ == a && l == loc,
                        _ => false,
                    },
                    Ok(_) => false,
                },
            },
    {
        let arity = self.ty.arguments.len();
        let mut f: Vec<Predicate> = Vec::new();
        let mut k: usize = 0;
        while k < arity
            invariant
                k <= arity,
                f@.len() == k,
                forall|j: int| 0 <= j < k ==> crate::predicate::pred_view(#[trigger] f@[j])
                    == PredView::Var(Variable::Local(j as usize)),
            decreases arity - k,
        {
            f.push(Predicate::Var(Variable::Local(k)));
            k += 1;
        }
        proof {
            assert(crate::predicate::preds_view(f@) =~= spec_arg_locals(
                self@.ty.args.len() as int,
            ));
        }
        let ret = self.ty.return_ty().project(&f, 0);
        let ghost retv = spec_project_ty(
            *self@.ty.ret,
            spec_arg_locals(self@.ty.args.len() as int),
            0,
        );
        let n = self.bblocks.len();
        let mut i: usize = 0;
        proof {
            assert(self@.bblocks.len() == self.bblocks@.len());
        }
        while i < n
            invariant
                i <= n,
                n == self.bblocks@.len(),
                n == self@.bblocks.len(),
                n == bb_env@.len(),
                ret@ == retv,
                retv == spec_project_ty(
                    *self@.ty.ret,
                    spec_arg_locals(self@.ty.args.len() as int),
                    0,
                ),
                forall|j: int| 0 <= j < self@.bblocks.len() ==> match (#[trigger] self@.bblocks[j]).terminator {
                    Terminator::Goto(b) => b < bb_env@.len(),
                    Terminator::Return(_) => true,
                },
                spec_check_func_blocks(self@.bblocks, bb_env@, retv, 0)
                    == spec_check_func_blocks(self@.bblocks, bb_env@, retv, i as int),
            decreases n - i,
        {
            proof {
                assert(self@.bblocks[i as int] == self.bblocks@[i as int]@);
            }
            let entry = bb_env.get_ty(i);
            let outcome = self.bblocks[i].check(entry, bb_env, &ret);
            proof {
                let out = spec_check_bblock(
                    self@.bblocks[i as int],
                    bb_env@[i as int],
                    bb_env@,
                    retv,
                );
                if out is Passed {
                    assert(spec_check_func_blocks(self@.bblocks, bb_env@, retv, i as int)
                        == spec_check_func_blocks(self@.bblocks, bb_env@, retv, i + 1));
                } else {
                    assert(spec_check_func_blocks(self@.bblocks, bb_env@, retv, i as int) == out);
                }
            }
            if let Err(e) = outcome {
                return Err(e);
            }
            i += 1;
        }
        Ok(())
    }
}

} // verus!
