use vstd::prelude::*;

use crate::account::AccountId;
use crate::error::LendingError;
use crate::events::{
    Borrowed, CollateralDeposited, InterestClaimed, Liquidated, LiquidityProvided,
    LiquidityWithdrawn, Repaid, UserInfo,
};
use crate::ledger::{amount_of, map_sum};
use crate::rates::{
    fits, health_fits, health_spec, interest_spec, rate_spec, utilization_spec, value_spec,
    LENDER_INTEREST_SHARE, LIQUIDATION_THRESHOLD, MAX_HEALTH, TREASURY_INTEREST_SHARE,
    TVARA_UNIT, WAD,
};

verus! {

/// The abstract state of the lending engine: every ledger as a map from account to amount.
pub struct StorageModel {
    pub vft_address: AccountId,
    pub admin: AccountId,
    pub price: nat,
    pub collateral: Map<AccountId, nat>,
    pub debt: Map<AccountId, nat>,
    pub accrued: Map<AccountId, nat>,
    pub lender_balances: Map<AccountId, nat>,
    pub lender_earned: Map<AccountId, nat>,
    pub total_liquidity: nat,
    pub treasury: nat,
    pub total_interest_earned: nat,
    pub total_principal_borrowed: nat,
    pub last_accrual_ts: nat,
    pub paused: bool,
    pub reentrancy: bool,
}

pub open spec fn ledger_ok(m: Map<AccountId, nat>) -> bool {
    &&& m.dom().finite()
    &&& forall|k: AccountId| #[trigger] m.contains_key(k) ==> fits(m[k] as int)
}

/// What every reachable state satisfies.
pub open spec fn model_wf(m: StorageModel) -> bool {
    &&& ledger_ok(m.collateral)
    &&& ledger_ok(m.debt)
    &&& ledger_ok(m.accrued)
    &&& ledger_ok(m.lender_balances)
    &&& ledger_ok(m.lender_earned)
    &&& fits(m.price as int)
    &&& fits(m.total_liquidity as int)
    &&& fits(m.treasury as int)
    &&& fits(m.total_interest_earned as int)
    &&& fits(m.total_principal_borrowed as int)
    &&& m.last_accrual_ts <= u64::MAX
    &&& m.price > 0
    // principal entries add up to the borrowed total
    &&& map_sum(m.debt) == m.total_principal_borrowed
    // an entry is kept only while it is non-zero; interest is kept only beside principal
    &&& forall|k: AccountId| #[trigger] m.collateral.contains_key(k) ==> m.collateral[k] > 0
    &&& forall|k: AccountId| #[trigger] m.debt.contains_key(k) ==> m.debt[k] > 0
    &&& forall|k: AccountId| #[trigger]
        m.accrued.contains_key(k) ==> m.accrued[k] > 0 && m.debt.contains_key(k)
}

/// Utilization of the pool, counting accrued interest as borrowed; `None` where an
/// intermediate value leaves `u128`.
pub open spec fn pool_utilization(m: StorageModel) -> Option<int> {
    let interest = map_sum(m.accrued);
    let borrowed = m.total_principal_borrowed + interest;
    let total = m.total_liquidity + borrowed;
    if !fits(interest) || !fits(borrowed) || !fits(total) || (total != 0 && !fits(
        borrowed * WAD,
    )) {
        None
    } else {
        Some(utilization_spec(borrowed, m.total_liquidity as int))
    }
}

/// A lender with a non-zero balance takes part in the distribution.
pub open spec fn shares_in(balances: Map<AccountId, nat>, k: AccountId) -> bool {
    balances.contains_key(k) && balances[k] > 0
}

/// A lender's part of `lender_total`, pro rata to its balance.
pub open spec fn lender_share(balance: int, lender_total: int, liquidity: int) -> int {
    balance * lender_total / liquidity
}

pub open spec fn lenders_fit(
    earned: Map<AccountId, nat>,
    balances: Map<AccountId, nat>,
    lender_total: int,
    liquidity: int,
) -> bool {
    forall|k: AccountId| #[trigger]
        shares_in(balances, k) ==> fits(balances[k] * lender_total) && fits(
            amount_of(earned, k) + lender_share(balances[k] as int, lender_total, liquidity),
        )
}

/// Earned interest after crediting each lender its share of `lender_total`.
pub open spec fn credit_lenders(
    earned: Map<AccountId, nat>,
    balances: Map<AccountId, nat>,
    lender_total: int,
    liquidity: int,
) -> Map<AccountId, nat> {
    Map::new(
        |k: AccountId| earned.contains_key(k) || shares_in(balances, k),
        |k: AccountId|
            if shares_in(balances, k) {
                (amount_of(earned, k) + lender_share(balances[k] as int, lender_total, liquidity))
                    as nat
            } else {
                earned[k]
            },
    )
}

/// Interest that account `k` owes for `dt` seconds at `rate` on its own principal.
pub open spec fn borrower_interest(debts: Map<AccountId, nat>, k: AccountId, rate: int, dt: int) -> int {
    if debts.contains_key(k) {
        interest_spec(debts[k] as int, rate, dt)
    } else {
        0
    }
}

pub open spec fn borrowers_fit(
    accrued: Map<AccountId, nat>,
    debts: Map<AccountId, nat>,
    rate: int,
    dt: int,
) -> bool {
    forall|k: AccountId| #[trigger]
        debts.contains_key(k) ==> fits(debts[k] * rate) && fits(debts[k] * rate * dt) && fits(
            amount_of(accrued, k) + interest_spec(debts[k] as int, rate, dt),
        )
}

/// Accrued interest after charging each borrower for `dt` seconds.
pub open spec fn credit_borrowers(
    accrued: Map<AccountId, nat>,
    debts: Map<AccountId, nat>,
    rate: int,
    dt: int,
) -> Map<AccountId, nat> {
    Map::new(
        |k: AccountId| accrued.contains_key(k) || borrower_interest(debts, k, rate, dt) > 0,
        |k: AccountId| (amount_of(accrued, k) + borrower_interest(debts, k, rate, dt)) as nat,
    )
}

/// Interest settlement up to `now`: nothing happens over a zero-length interval; otherwise
/// the clock moves to `now`, and interest on the borrowed principal is split between
/// treasury and lenders while each borrower is charged on its own principal. `None` where
/// an amount would leave `u128`.
pub open spec fn accrue_spec(m: StorageModel, now: nat) -> Option<StorageModel> {
    let dt = now - m.last_accrual_ts;
    if dt <= 0 {
        Some(m)
    } else {
        match pool_utilization(m) {
            None => None,
            Some(u) => {
                let rate = rate_spec(u);
                let principal = m.total_principal_borrowed as int;
                let advanced = StorageModel { last_accrual_ts: now, ..m };
                if !fits(principal * rate) || !fits(principal * rate * dt) {
                    None
                } else if interest_spec(principal, rate, dt) == 0 {
                    Some(advanced)
                } else {
                    let generated = interest_spec(principal, rate, dt);
                    let treasury_cut = generated * TREASURY_INTEREST_SHARE / 100;
                    let lender_total = generated * LENDER_INTEREST_SHARE / 100;
                    let lenders_paid = m.total_liquidity > 0 && lender_total > 0;
                    if !fits(m.treasury + treasury_cut) || !fits(
                        m.total_interest_earned + generated,
                    ) || (lenders_paid && !lenders_fit(
                        m.lender_earned,
                        m.lender_balances,
                        lender_total,
                        m.total_liquidity as int,
                    )) || !borrowers_fit(m.accrued, m.debt, rate, dt) {
                        None
                    } else {
                        Some(
                            StorageModel {
                                treasury: (m.treasury + treasury_cut) as nat,
                                total_interest_earned: (m.total_interest_earned + generated) as nat,
                                lender_earned: if lenders_paid {
                                    credit_lenders(
                                        m.lender_earned,
                                        m.lender_balances,
                                        lender_total,
                                        m.total_liquidity as int,
                                    )
                                } else {
                                    m.lender_earned
                                },
                                accrued: credit_borrowers(m.accrued, m.debt, rate, dt),
                                ..advanced
                            },
                        )
                    }
                }
            },
        }
    }
}

/// The checks every guarded operation passes first, then interest settlement.
pub open spec fn guarded(m: StorageModel, now: nat) -> Result<StorageModel, LendingError> {
    if m.paused {
        Err(LendingError::Paused)
    } else if m.reentrancy {
        Err(LendingError::Reentrant)
    } else {
        match accrue_spec(m, now) {
            Some(a) => Ok(a),
            None => Err(LendingError::Overflow),
        }
    }
}

pub open spec fn deposit_spec(m: StorageModel, user: AccountId, amount: nat, now: nat) -> Result<
    (StorageModel, CollateralDeposited),
    LendingError,
> {
    if amount == 0 {
        Err(LendingError::ZeroAmount)
    } else {
        match guarded(m, now) {
            Err(e) => Err(e),
            Ok(a) => {
                let c = amount_of(a.collateral, user) + amount;
                if !fits(c) {
                    Err(LendingError::Overflow)
                } else {
                    Ok(
                        (
                            StorageModel { collateral: a.collateral.insert(user, c as nat), ..a },
                            CollateralDeposited { user, amount: amount as u128 },
                        ),
                    )
                }
            },
        }
    }
}

/// Largest debt, in asset units, that `collateral` units back under the 150% cap.
pub open spec fn max_borrowable(collateral: int, price: int) -> int {
    value_spec(collateral, price) * 100 / 150 * TVARA_UNIT / price
}

/// Amount lent against `collateral` units at the conservative 66% ratio.
pub open spec fn borrow_amount(collateral: int, price: int) -> int {
    value_spec(collateral, price) * 66 / 100 * TVARA_UNIT / price
}

pub open spec fn borrow_fits(collateral: int, price: int) -> bool {
    let value = value_spec(collateral, price);
    &&& fits(collateral * price)
    &&& fits(value * 100)
    &&& fits(value * 66)
    &&& fits(value * 100 / 150 * TVARA_UNIT)
    &&& fits(value * 66 / 100 * TVARA_UNIT)
}

pub open spec fn borrow_spec(m: StorageModel, user: AccountId, now: nat) -> Result<
    (StorageModel, Borrowed),
    LendingError,
> {
    match guarded(m, now) {
        Err(e) => Err(e),
        Ok(a) => {
            let c = amount_of(a.collateral, user) as int;
            let price = a.price as int;
            let owed = amount_of(a.debt, user) + amount_of(a.accrued, user);
            if c == 0 {
                Err(LendingError::NoCollateral)
            } else if !borrow_fits(c, price) || !fits(owed) || !fits(
                owed + borrow_amount(c, price),
            ) {
                Err(LendingError::Overflow)
            } else if owed + borrow_amount(c, price) > max_borrowable(c, price) {
                Err(LendingError::ExceedsLtv)
            } else if borrow_amount(c, price) > a.total_liquidity {
                Err(LendingError::InsufficientLiquidity)
            } else if borrow_amount(c, price) == 0 {
                Err(LendingError::ZeroAmount)
            } else if !fits(a.total_principal_borrowed + borrow_amount(c, price)) {
                Err(LendingError::Overflow)
            } else {
                let amount = borrow_amount(c, price);
                Ok(
                    (
                        StorageModel {
                            debt: a.debt.insert(user, (amount_of(a.debt, user) + amount) as nat),
                            total_principal_borrowed: (a.total_principal_borrowed + amount) as nat,
                            total_liquidity: (a.total_liquidity - amount) as nat,
                            ..a
                        },
                        Borrowed { user, amount: amount as u128 },
                    ),
                )
            }
        },
    }
}

pub open spec fn repay_spec(m: StorageModel, user: AccountId, amount: nat, now: nat) -> Result<
    (StorageModel, Repaid),
    LendingError,
> {
    match guarded(m, now) {
        Err(e) => Err(e),
        Ok(a) => {
            let principal = amount_of(a.debt, user) as int;
            let interest = amount_of(a.accrued, user) as int;
            let paid = if amount < principal {
                amount as int
            } else {
                principal
            };
            let rest = principal - paid;
            let after = StorageModel {
                total_principal_borrowed: (a.total_principal_borrowed - paid) as nat,
                total_liquidity: (a.total_liquidity + paid) as nat,
                ..a
            };
            if !fits(a.total_liquidity + paid) {
                Err(LendingError::Overflow)
            } else if rest > 0 {
                Ok(
                    (
                        StorageModel { debt: a.debt.insert(user, rest as nat), ..after },
                        Repaid {
                            user,
                            amount: amount as u128,
                            collateral_to_return: 0,
                            interest_deducted: 0,
                            debt_fully_paid: false,
                        },
                    ),
                )
            } else {
                let c = amount_of(a.collateral, user) as int;
                Ok(
                    (
                        StorageModel {
                            collateral: a.collateral.remove(user),
                            debt: a.debt.remove(user),
                            accrued: a.accrued.remove(user),
                            ..after
                        },
                        Repaid {
                            user,
                            amount: amount as u128,
                            collateral_to_return: if c >= interest {
                                (c - interest) as u128
                            } else {
                                0
                            },
                            interest_deducted: if c >= interest {
                                interest as u128
                            } else {
                                c as u128
                            },
                            debt_fully_paid: true,
                        },
                    ),
                )
            }
        },
    }
}

/// `Some(true)` when `remaining` units still back a debt of `owed` units under the 150%
/// cap, `None` where an intermediate value leaves `u128`.
pub open spec fn remaining_backs(remaining: int, owed: int, price: int) -> Option<bool> {
    if !fits(remaining * price) || !fits(owed * price) || !fits(
        value_spec(remaining, price) * 100,
    ) {
        None
    } else {
        Some(value_spec(owed, price) <= value_spec(remaining, price) * 100 / 150)
    }
}

pub open spec fn withdraw_collateral_spec(
    m: StorageModel,
    user: AccountId,
    amount: nat,
    now: nat,
) -> Result<(StorageModel, u128), LendingError> {
    match guarded(m, now) {
        Err(e) => Err(e),
        Ok(a) => {
            let c = amount_of(a.collateral, user) as int;
            let remaining = c - amount;
            let owed = amount_of(a.debt, user) + amount_of(a.accrued, user);
            let after = StorageModel {
                collateral: if remaining == 0 {
                    a.collateral.remove(user)
                } else {
                    a.collateral.insert(user, remaining as nat)
                },
                ..a
            };
            if c < amount {
                Err(LendingError::InsufficientCollateral)
            } else if owed == 0 {
                Ok((after, amount as u128))
            } else if !fits(owed) {
                Err(LendingError::Overflow)
            } else {
                match remaining_backs(remaining, owed, a.price as int) {
                    None => Err(LendingError::Overflow),
                    Some(false) => Err(LendingError::ExceedsLtv),
                    Some(true) => Ok((after, amount as u128)),
                }
            }
        },
    }
}

pub open spec fn lend_spec(m: StorageModel, lender: AccountId, amount: nat, now: nat) -> Result<
    (StorageModel, LiquidityProvided),
    LendingError,
> {
    if amount == 0 {
        Err(LendingError::ZeroAmount)
    } else {
        match guarded(m, now) {
            Err(e) => Err(e),
            Ok(a) => {
                let b = amount_of(a.lender_balances, lender) + amount;
                if !fits(b) || !fits(a.total_liquidity + amount as int) {
                    Err(LendingError::Overflow)
                } else {
                    Ok(
                        (
                            StorageModel {
                                lender_balances: a.lender_balances.insert(lender, b as nat),
                                total_liquidity: (a.total_liquidity + amount as int) as nat,
                                ..a
                            },
                            LiquidityProvided { lender, amount: amount as u128 },
                        ),
                    )
                }
            },
        }
    }
}

pub open spec fn withdraw_spec(m: StorageModel, lender: AccountId, amount: nat, now: nat) -> Result<
    (StorageModel, (LiquidityWithdrawn, InterestClaimed)),
    LendingError,
> {
    match guarded(m, now) {
        Err(e) => Err(e),
        Ok(a) => {
            let b = amount_of(a.lender_balances, lender) as int;
            let earned = amount_of(a.lender_earned, lender);
            if b < amount {
                Err(LendingError::InsufficientBalance)
            } else if a.total_liquidity < amount {
                Err(LendingError::InsufficientLiquidity)
            } else if !fits(amount + earned) {
                Err(LendingError::Overflow)
            } else {
                Ok(
                    (
                        StorageModel {
                            lender_balances: a.lender_balances.insert(lender, (b - amount) as nat),
                            lender_earned: a.lender_earned.insert(lender, 0),
                            total_liquidity: (a.total_liquidity - amount) as nat,
                            ..a
                        },
                        (
                            LiquidityWithdrawn { lender, amount: amount as u128 },
                            InterestClaimed { lender, amount: earned as u128 },
                        ),
                    ),
                )
            }
        },
    }
}

pub open spec fn claim_interest_spec(m: StorageModel, lender: AccountId, now: nat) -> Result<
    (StorageModel, InterestClaimed),
    LendingError,
> {
    match guarded(m, now) {
        Err(e) => Err(e),
        Ok(a) => {
            let earned = amount_of(a.lender_earned, lender);
            if earned == 0 {
                Err(LendingError::NothingToClaim)
            } else {
                Ok(
                    (
                        StorageModel { lender_earned: a.lender_earned.insert(lender, 0), ..a },
                        InterestClaimed { lender, amount: earned as u128 },
                    ),
                )
            }
        },
    }
}

pub open spec fn liquidate_spec(m: StorageModel, user: AccountId, now: nat) -> Result<
    (StorageModel, Liquidated),
    LendingError,
> {
    match guarded(m, now) {
        Err(e) => Err(e),
        Ok(a) => {
            let c = amount_of(a.collateral, user) as int;
            let principal = amount_of(a.debt, user) as int;
            let owed = principal + amount_of(a.accrued, user);
            if !fits(owed) {
                Err(LendingError::Overflow)
            } else if c == 0 {
                Err(LendingError::NoCollateral)
            } else if owed == 0 {
                Err(LendingError::NoDebt)
            } else if !health_fits(c, owed, a.price as int) {
                Err(LendingError::Overflow)
            } else if health_spec(c, owed, a.price as int) >= LIQUIDATION_THRESHOLD {
                Err(LendingError::Healthy)
            } else if !fits(a.total_liquidity + c) {
                Err(LendingError::Overflow)
            } else {
                Ok(
                    (
                        StorageModel {
                            collateral: a.collateral.remove(user),
                            debt: a.debt.remove(user),
                            accrued: a.accrued.remove(user),
                            total_principal_borrowed: (a.total_principal_borrowed - principal) as nat,
                            total_liquidity: (a.total_liquidity + c) as nat,
                            ..a
                        },
                        Liquidated {
                            user,
                            collateral_sold: c as u128,
                            debt_cleared: owed as u128,
                        },
                    ),
                )
            }
        },
    }
}

pub open spec fn set_paused_spec(m: StorageModel, caller: AccountId, paused: bool) -> Result<
    StorageModel,
    LendingError,
> {
    if caller != m.admin {
        Err(LendingError::NotAdmin)
    } else {
        Ok(StorageModel { paused, ..m })
    }
}

pub open spec fn update_price_spec(m: StorageModel, caller: AccountId, new_price: nat) -> Result<
    StorageModel,
    LendingError,
> {
    if m.paused {
        Err(LendingError::Paused)
    } else if caller != m.admin {
        Err(LendingError::NotAdmin)
    } else if new_price == 0 {
        Err(LendingError::InvalidPrice)
    } else {
        Ok(StorageModel { price: new_price, ..m })
    }
}

/// Native value paid out for `amount` asset units at `price`.
pub open spec fn native_value(amount: int, price: int) -> int {
    amount * price / (WAD as int)
}

pub open spec fn admin_withdraw_funds_spec(
    m: StorageModel,
    caller: AccountId,
    amount: nat,
    now: nat,
) -> Result<(StorageModel, u128), LendingError> {
    match guarded(m, now) {
        Err(e) => Err(e),
        Ok(a) => {
            if caller != a.admin {
                Err(LendingError::NotAdmin)
            } else if amount == 0 {
                Err(LendingError::ZeroAmount)
            } else if a.total_liquidity < amount {
                Err(LendingError::InsufficientLiquidity)
            } else if !fits(amount * a.price as int) {
                Err(LendingError::Overflow)
            } else {
                Ok(
                    (
                        StorageModel { total_liquidity: (a.total_liquidity - amount) as nat, ..a },
                        native_value(amount as int, a.price as int) as u128,
                    ),
                )
            }
        },
    }
}

pub open spec fn admin_withdraw_treasury_spec(
    m: StorageModel,
    caller: AccountId,
    amount: nat,
    now: nat,
) -> Result<(StorageModel, u128), LendingError> {
    match guarded(m, now) {
        Err(e) => Err(e),
        Ok(a) => {
            if caller != a.admin {
                Err(LendingError::NotAdmin)
            } else if amount == 0 {
                Err(LendingError::ZeroAmount)
            } else if a.treasury < amount {
                Err(LendingError::InsufficientLiquidity)
            } else if !fits(amount * a.price as int) {
                Err(LendingError::Overflow)
            } else {
                Ok(
                    (
                        StorageModel { treasury: (a.treasury - amount) as nat, ..a },
                        native_value(amount as int, a.price as int) as u128,
                    ),
                )
            }
        },
    }
}

/// Principal plus accrued interest of `user`.
pub open spec fn owed_by(m: StorageModel, user: AccountId) -> int {
    amount_of(m.debt, user) + amount_of(m.accrued, user)
}

/// Health factor of `user`'s position; `None` where it cannot be computed in `u128`.
pub open spec fn health_of(m: StorageModel, user: AccountId) -> Option<int> {
    let owed = owed_by(m, user);
    let c = amount_of(m.collateral, user) as int;
    if !fits(owed) || !health_fits(c, owed, m.price as int) {
        None
    } else {
        Some(health_spec(c, owed, m.price as int))
    }
}

pub open spec fn user_info_spec(m: StorageModel, user: AccountId) -> Option<UserInfo> {
    let health = if owed_by(m, user) > 0 {
        health_of(m, user)
    } else {
        Some(MAX_HEALTH as int)
    };
    match health {
        None => None,
        Some(h) => Some(
            UserInfo {
                collateral: amount_of(m.collateral, user) as u128,
                debt: amount_of(m.debt, user) as u128,
                lender_balance: amount_of(m.lender_balances, user) as u128,
                tvara_price: m.price as u128,
                health_factor: h as u128,
                accrued_interest: amount_of(m.accrued, user) as u128,
                lender_interest_earned: amount_of(m.lender_earned, user) as u128,
            },
        ),
    }
}

} // verus!
