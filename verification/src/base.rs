//! Base types, literal constants, and the variables that refinement
//! predicates can mention.

use vstd::prelude::*;

verus! {

/// A primitive base type. Refined types constrain values of exactly one
/// base type; base types are compared by value.
#[derive(Clone, Copy, PartialEq, Eq, Structural, Debug)]
pub enum BaseTy {
    /// The unit type.
    Unit,
    /// The type of booleans.
    Bool,
    /// The type of (machine) integers.
    Int,
}

/// A literal constant together with the information needed to recover its
/// base type.
#[derive(Clone, Copy, PartialEq, Eq, Structural, Debug)]
pub enum Literal {
    /// The unit constant.
    Unit,
    /// A boolean constant.
    Bool(bool),
    /// An integer constant.
    Int(i64),
}

impl Literal {
    /// The base type a literal belongs to.
    pub open spec fn spec_base_ty(self) -> BaseTy {
        match self {
            Literal::Unit => BaseTy::Unit,
            Literal::Bool(_) => BaseTy::Bool,
            Literal::Int(_) => BaseTy::Int,
        }
    }

    /// Return the base type of the literal.
    pub fn base_ty(&self) -> (r: BaseTy)
        ensures
            r == self.spec_base_ty(),
    {
        match self {
            Literal::Unit => BaseTy::Unit,
            Literal::Bool(_) => BaseTy::Bool,
            Literal::Int(_) => BaseTy::Int,
        }
    }
}

/// An occurrence of a function-type argument, addressed by de Bruijn
/// depth: `level` counts how many function-type binders stand between the
/// occurrence and the function type that introduced the argument (0 = the
/// innermost enclosing function type), and `pos` is the argument's
/// position inside that function type.
#[derive(Clone, Copy, PartialEq, Eq, Structural, Debug)]
pub struct Argument {
    /// The position of the argument inside its function type.
    pub pos: usize,
    /// The number of function-type binders between the occurrence and the
    /// function type that owns the argument.
    pub level: usize,
}

impl Argument {
    /// Increase the de Bruijn level of the occurrence by `levels`, i.e.
    /// move the occurrence under `levels` more binders.
    pub fn inc(self, levels: usize) -> (r: Argument)
        requires
            self.level + levels <= usize::MAX,
        ensures
            r == (Argument { pos: self.pos, level: (self.level + levels) as usize }),
    {
        Argument { pos: self.pos, level: self.level + levels }
    }
}

/// A variable that a predicate can refer to, and the unit of substitution:
/// the bound variable of the refined type itself, a local variable of the
/// function being checked, or an argument of an enclosing function type.
#[derive(Clone, Copy, PartialEq, Eq, Structural, Debug)]
pub enum Variable {
    /// The variable bound by the refined type, i.e. the value being
    /// refined.
    Bound,
    /// A local variable of the function under check.
    Local(usize),
    /// An argument of an enclosing dependent function type.
    Arg(Argument),
}

} // verus!
