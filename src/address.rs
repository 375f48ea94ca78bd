use vstd::prelude::*;

verus! {

/// A 32-byte account address, as two 128-bit halves.
#[derive(Clone, Copy, Debug, PartialEq, Eq, Structural)]
pub struct Address {
    pub hi: u128,
    pub lo: u128,
}

} // verus!
