//! What can go wrong.

use vstd::prelude::*;

verus! {

/// The failures that the assembler and the memory loader report. Each is
/// reported by the call that detects it, and none is retried.
#[derive(Clone, Copy, Debug, PartialEq, Eq, Structural)]
pub enum ErrorKind {
    /// A name is not in the symbol table.
    UndefinedSymbol,
    /// The number of arguments differs from the number that the symbol
    /// takes.
    ArityMismatch,
    /// Expansion nested deeper than the bound allows.
    ExpansionDepthExceeded,
    /// An argument is of the wrong kind, such as anything but a location
    /// given to `bank`.
    TypeError,
    /// A node that is no statement reached the commit phase.
    MalformedStatement,
    /// An image is larger than the address space.
    IoError,
}

} // verus!
