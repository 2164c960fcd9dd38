//! The failures that the store reports.

use vstd::prelude::*;

verus! {

/// Why an operation on the store did not succeed.
#[derive(Clone, Copy, Debug, PartialEq, Eq, Structural)]
pub enum Error {
    /// No request is stored under the identifier.
    NotFound { id: u64 },
    /// The encoded request would be longer than a stored value may be.
    RecordTooLarge,
    /// The bytes stored under the identifier are not an encoded request.
    Undecodable { id: u64 },
    /// Every identifier has been handed out.
    IdsExhausted,
    /// The counter's region refused the new value.
    CounterWrite,
    /// The counter could not be loaded from its region.
    CounterInit,
    /// A request is stored under an identifier that the counter has not
    /// reached yet.
    CounterBehind { id: u64 },
}

} // verus!
