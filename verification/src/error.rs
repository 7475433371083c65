//! What can go wrong.

use vstd::prelude::*;

verus! {

/// Why an operation failed.
#[derive(Debug, Clone, Copy, PartialEq, Eq, Structural)]
pub enum Error {
    /// The file holds no state that can be trusted: a checksum does not
    /// verify.
    Corruption,
    /// No page could be allocated: every region is full, and the file
    /// cannot grow further.
    OutOfSpace,
    /// The table is already open in this transaction.
    TableAlreadyOpen,
    /// The table was recorded with other key or value types.
    TableTypeMismatch,
}

} // verus!
