use vstd::prelude::*;

verus! {

/// A 256-bit account identifier, held as its high and low halves.
#[derive(Clone, Copy, Debug, PartialEq, Eq, Structural, Hash)]
pub struct AccountId {
    pub hi: u128,
    pub lo: u128,
}

impl AccountId {
    /// The identifier whose numeric value is `n`.
    pub fn from_u64(n: u64) -> (r: AccountId)
        ensures
            r.hi == 0,
            r.lo == n as u128,
    {
        AccountId { hi: 0, lo: n as u128 }
    }
}

} // verus!
