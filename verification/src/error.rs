//! The ways in which reading a filing can fail.

use vstd::prelude::*;

verus! {

/// How the tags of a document fail to nest.
#[derive(Clone, Copy, Debug, PartialEq, Eq, Structural)]
pub enum StructuralFault {
    /// An end tag arrived while no element was open.
    UnmatchedEnd,
    /// The input ended while an element was still open.
    UnclosedElement,
}

/// Why a document could not be read into a tree.
#[derive(Clone, Copy, Debug, PartialEq, Eq, Structural)]
pub enum ParseFailure {
    /// The markup is malformed; `position` is the offset in the input at
    /// which reading stood when that was found.
    ParseError { position: usize },
    /// The markup is readable, but its tags do not nest.
    StructuralError { fault: StructuralFault },
}

} // verus!
