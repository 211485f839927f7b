use vstd::prelude::*;

verus! {

/// Why an operation of the lending engine was refused. A refused operation leaves the
/// engine as it was.
#[derive(Clone, Copy, Debug, PartialEq, Eq, Structural)]
pub enum LendingError {
    /// The protocol is paused.
    Paused,
    /// Another guarded operation is in flight.
    Reentrant,
    /// The caller is not the admin.
    NotAdmin,
    /// The amount must be greater than zero.
    ZeroAmount,
    /// A price must be greater than zero.
    InvalidPrice,
    /// The account has no collateral.
    NoCollateral,
    /// The account owes nothing.
    NoDebt,
    /// The position would exceed the maximum loan-to-value ratio.
    ExceedsLtv,
    /// The pool (or the treasury) holds less than requested.
    InsufficientLiquidity,
    /// The account holds less collateral than requested.
    InsufficientCollateral,
    /// The lender supplied less than requested.
    InsufficientBalance,
    /// The lender has no interest to claim.
    NothingToClaim,
    /// The position is healthy enough not to be liquidated.
    Healthy,
    /// An amount would not fit in 128 bits.
    Overflow,
}

} // verus!
