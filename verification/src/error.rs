//! The error taxonomy shared by every fallible operation.

use vstd::prelude::*;

verus! {

/// Why an operation on a buffer was refused.
///
/// Every fallible operation returns one of these before it has touched any
/// memory: there is no partial failure.
#[derive(Debug, Clone, Copy, PartialEq, Eq, Structural)]
pub enum Error {
    /// The requested range leaves the buffer. The first field is the
    /// boundary (the buffer's length), the second is the offset or end
    /// that was asked for.
    OutOfBounds(usize, usize),
    /// The address does not fall inside the buffer. The field is the address.
    InvalidPointer(usize),
    /// The address is in bounds but not aligned for the target type. The
    /// first field is the required alignment, the second the residue of the
    /// address modulo that alignment.
    BadAlignment(usize, usize),
    /// The element type of a slice conversion has size zero.
    ZeroSizedType,
    /// A byte slice does not have exactly the size of the target type. The
    /// first field is the length of the slice, the second the size of the type.
    SizeMismatch(usize, usize),
}

} // verus!
