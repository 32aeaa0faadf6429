//! The ways in which checking can stop.

use vstd::prelude::*;

verus! {

/// Why an operation of the kernel gave no result.
#[derive(Debug, Clone, Copy, PartialEq, Eq, Structural)]
pub enum KernelError {
    /// The depth allowed for nested checks was used up.
    OutOfFuel,
    /// A de Bruijn index or the counter of free variables left the range
    /// of `u32`.
    IndexOverflow,
    /// A bound variable without its binder was met.
    LooseBVar,
    /// Levels were to be substituted in a free variable.
    FVarInSubst,
    /// A function type was expected.
    ExpectedPi,
    /// A sort was expected.
    ExpectedSort,
    /// A projection was applied to what is no value of a structure.
    NotAStructure,
    /// A projection asked for a field that its constructor application
    /// lacks.
    MissingField,
    /// A constant names no declaration.
    UnknownDeclaration,
    /// A declared type and an inferred type differ.
    TypeMismatch,
    /// A level holds a parameter that its declaration does not list.
    UndeclaredParam,
}

} // verus!
