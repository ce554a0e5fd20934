//! Party identifiers.

use vstd::prelude::*;

verus! {

/// An opaque identifier of a party: an account, a token or a contract.
///
/// The engine never looks inside an address; it only compares two of them.
#[derive(Clone, Copy, Debug, PartialEq, Eq, Structural, Hash)]
pub struct Address {
    pub id: u64,
}

impl Address {
    /// The address that stands for the identifier `id`.
    pub fn new(id: u64) -> (a: Address)
        ensures
            a.id == id,
    {
        Address { id }
    }
}

} // verus!
