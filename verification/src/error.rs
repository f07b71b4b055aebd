//! Why a module cannot be built.

use vstd::prelude::*;

verus! {

/// The ways in which a program can be too large for the module format.
#[derive(Clone, Copy, Debug, PartialEq, Eq, Structural)]
pub enum BuildError {
    /// Four times the initial memory size does not fit in 32 bits, so the memory cannot
    /// be given its maximum.
    MemoryLimit,
    /// Cut to 32 bits, some block address lies below the lowest block address, so it has
    /// no slot in the dispatch table.
    AddressRange,
    /// A name, a function body or a section is longer than a 32-bit size field can say.
    SizeLimit,
}

} // verus!
