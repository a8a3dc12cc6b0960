//! The control-flow-graph intermediate representation the checker walks:
//! functions made of basic blocks, each a straight-line statement
//! sequence ended by one control-transferring terminator.

use vstd::prelude::*;

use crate::predicate::BinOp;
use crate::base::Literal;
use crate::ty::{func_ty_view, FuncTy, FuncTyView};

verus! {

/// The identity of a basic block inside its function: the block's index.
pub type BBlockId = usize;

/// The identity of a function inside the program: the function's index.
pub type FuncId = usize;

/// An operand of a statement: a literal constant or a local variable.
#[derive(Clone, Copy, PartialEq, Eq, Structural, Debug)]
pub enum Operand {
    /// A literal constant.
    Lit(Literal),
    /// A local variable, by index.
    Local(usize),
}

/// The right-hand side of an assignment.
#[derive(Clone, Copy, PartialEq, Eq, Structural, Debug)]
pub enum Rvalue {
    /// Copy an operand.
    Use(Operand),
    /// Apply a binary operation to two operands.
    BinApp(BinOp, Operand, Operand),
}

/// A statement: the assignment of an rvalue to a local variable.
#[derive(Clone, Copy, PartialEq, Eq, Structural, Debug)]
pub struct Statement {
    /// The local being assigned.
    pub local: usize,
    /// The value assigned to it.
    pub rvalue: Rvalue,
}

/// The terminator of a basic block.
#[derive(Clone, Copy, PartialEq, Eq, Structural, Debug)]
pub enum Terminator {
    /// Return the value held by a local variable.
    Return(usize),
    /// Jump to another basic block of the same function.
    Goto(BBlockId),
}

/// A basic block: statements in program order, then one terminator.
#[derive(Debug)]
pub struct BBlock {
    /// The statements, in the order they execute.
    pub statements: Vec<Statement>,
    /// The terminator that leaves the block.
    pub terminator: Terminator,
}

/// The model of a basic block.
#[verifier::ext_equal]
pub struct BBlockView {
    pub statements: Seq<Statement>,
    pub terminator: Terminator,
}

impl View for BBlock {
    type V = BBlockView;

    open spec fn view(&self) -> BBlockView {
        BBlockView { statements: self.statements@, terminator: self.terminator }
    }
}

/// A function of the program: its declared dependent type and the basic
/// blocks of its body. Block 0 is the entry block, and local `i` holds
/// argument `i` on entry.
#[derive(Debug)]
pub struct Func {
    /// The declared dependent function type.
    pub ty: FuncTy,
    /// The basic blocks of the body, indexed by block identity.
    pub bblocks: Vec<BBlock>,
}

/// The model of a function.
#[verifier::ext_equal]
pub struct FuncView {
    pub ty: FuncTyView,
    pub bblocks: Seq<BBlockView>,
}

impl View for Func {
    type V = FuncView;

    open spec fn view(&self) -> FuncView {
        FuncView {
            ty: func_ty_view(self.ty),
            bblocks: Seq::new(self.bblocks@.len(), |i: int| self.bblocks@[i]@),
        }
    }
}

/// A whole program: its functions, indexed by function identity.
#[derive(Debug)]
pub struct Program {
    /// The functions, in program order.
    pub funcs: Vec<Func>,
}

impl View for Program {
    type V = Seq<FuncView>;

    open spec fn view(&self) -> Seq<FuncView> {
        Seq::new(self.funcs@.len(), |i: int| self.funcs@[i]@)
    }
}

} // verus!
