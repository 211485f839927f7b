use vstd::prelude::*;

use crate::account::AccountId;

verus! {

#[derive(Clone, Copy, Debug, PartialEq, Eq, Structural)]
pub struct CollateralDeposited {
    pub user: AccountId,
    pub amount: u128,
}

#[derive(Clone, Copy, Debug, PartialEq, Eq, Structural)]
pub struct Borrowed {
    pub user: AccountId,
    pub amount: u128,
}

#[derive(Clone, Copy, Debug, PartialEq, Eq, Structural)]
pub struct Repaid {
    pub user: AccountId,
    /// Tokens burned from the user.
    pub amount: u128,
    pub collateral_to_return: u128,
    /// Accrued interest settled out of the collateral.
    pub interest_deducted: u128,
    /// The principal reached zero and the position was closed.
    pub debt_fully_paid: bool,
}

#[derive(Clone, Copy, Debug, PartialEq, Eq, Structural)]
pub struct Liquidated {
    pub user: AccountId,
    pub collateral_sold: u128,
    /// Principal and accrued interest cleared.
    pub debt_cleared: u128,
}

#[derive(Clone, Copy, Debug, PartialEq, Eq, Structural)]
pub struct LiquidityProvided {
    pub lender: AccountId,
    pub amount: u128,
}

#[derive(Clone, Copy, Debug, PartialEq, Eq, Structural)]
pub struct LiquidityWithdrawn {
    pub lender: AccountId,
    pub amount: u128,
}

#[derive(Clone, Copy, Debug, PartialEq, Eq, Structural)]
pub struct InterestClaimed {
    pub lender: AccountId,
    pub amount: u128,
}

/// A notification emitted after a successful operation.
#[derive(Clone, Copy, Debug, PartialEq, Eq, Structural)]
pub enum LendingEvent {
    CollateralDeposited(CollateralDeposited),
    Borrowed(Borrowed),
    Repaid(Repaid),
    Liquidated(Liquidated),
    LiquidityProvided(LiquidityProvided),
    LiquidityWithdrawn(LiquidityWithdrawn),
    InterestClaimed(InterestClaimed),
}

/// One account's position as the queries report it.
#[derive(Clone, Copy, Debug, PartialEq, Eq, Structural)]
pub struct UserInfo {
    pub collateral: u128,
    /// Principal debt.
    pub debt: u128,
    pub lender_balance: u128,
    pub tvara_price: u128,
    pub health_factor: u128,
    pub accrued_interest: u128,
    pub lender_interest_earned: u128,
}

} // verus!
