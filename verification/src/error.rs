//! The ways in which work against the store fails.

use vstd::prelude::*;

verus! {

/// Why an operation failed.
#[derive(Debug, Clone, Copy, PartialEq, Eq, Structural)]
pub enum Error {
    /// A lookup of a single row found none.
    NotFound,
    /// A read from the store or a write to it failed.
    QueryFailure,
    /// A stored row could not be turned into a record.
    DecodeFailure,
}

} // verus!
