//! Core of a refinement-type checker for a control-flow-graph
//! intermediate representation: refined base types and dependent function
//! types with de Bruijn-indexed argument references, lexical-scope
//! identifier resolution, per-program type environments with unique hole
//! generation, and a flow-sensitive block checker built on a conservative
//! subtype test.

pub mod base;
pub mod check;
pub mod entail;
pub mod glob_env;
pub mod ir;
pub mod predicate;
pub mod scope;
pub mod semantics;
pub mod ty;
