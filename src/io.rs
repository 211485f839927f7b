use vstd::prelude::*;

use crate::account::AccountId;
use crate::storage::LendingStorage;

verus! {

/// The deployment message: the paired token's address.
#[derive(Clone, Copy, Debug, PartialEq, Eq, Structural)]
pub struct LendingInit {
    pub vft_address: AccountId,
}

/// A request to the engine. Value-bearing requests carry their value beside the message.
#[derive(Clone, Copy, Debug, PartialEq, Eq, Structural)]
pub enum LendingAction {
    DepositCollateral,
    Borrow,
    Repay { user: AccountId, amount: u128 },
    WithdrawCollateral { user: AccountId, amount: u128 },
    Lend,
    Withdraw(u128),
    Liquidate(AccountId),
    GetUserInfo(AccountId),
    Pause,
    Resume,
    UpdateTvaraPrice(u128),
    UtilizationRate,
    ClaimInterest,
    AdminWithdrawFunds(u128),
    AdminWithdrawTreasury(u128),
    GetContractState,
}

/// The engine's answer to a [`LendingAction`].
#[derive(Debug)]
pub enum LendingReply {
    UserInfo {
        collateral: u128,
        debt: u128,
        lender_balance: u128,
        tvara_price: u128,
        health_factor: u128,
        accrued_interest: u128,
        lender_interest_earned: u128,
    },
    UtilizationRate(u128),
    Success,
    Error(String),
    ContractState(LendingStorage),
}

} // verus!
