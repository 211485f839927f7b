use vstd::prelude::*;

use crate::account::AccountId;
use crate::error::LendingError;
use crate::ledger::{amount_of, lemma_map_sum_bounds, map_sum};
use crate::events::{
    Borrowed, CollateralDeposited, InterestClaimed, Liquidated, LiquidityProvided,
    LiquidityWithdrawn, Repaid,
};
use crate::model::{
    accrue_spec, admin_withdraw_funds_spec, admin_withdraw_treasury_spec, borrow_amount,
    borrow_spec, borrower_interest, claim_interest_spec, credit_borrowers, deposit_spec, guarded,
    health_of, lend_spec, liquidate_spec, max_borrowable, model_wf, owed_by, pool_utilization,
    repay_spec, set_paused_spec, update_price_spec, withdraw_collateral_spec, withdraw_spec,
    StorageModel,
};
use crate::rates::{rate_spec, LIQUIDATION_THRESHOLD};
use crate::service::LendingService;

verus! {

/// Balances are never negative, and an account that holds neither collateral nor
/// principal has no entry in the collateral, principal or accrued-interest ledger.
pub proof fn lemma_settled_account_has_no_entries(s: &LendingService, user: AccountId)
    requires
        s.wf(),
    ensures
        amount_of(s@.debt, user) >= 0,
        amount_of(s@.collateral, user) >= 0,
        amount_of(s@.debt, user) == 0 && amount_of(s@.collateral, user) == 0 ==> {
            &&& !s@.collateral.contains_key(user)
            &&& !s@.debt.contains_key(user)
            &&& !s@.accrued.contains_key(user)
        },
{
    s.lemma_wf();
}

/// The principal entries always add up to the total principal borrowed.
pub proof fn lemma_principal_entries_sum_to_total(s: &LendingService)
    requires
        s.wf(),
    ensures
        map_sum(s@.debt) == s@.total_principal_borrowed,
{
    s.lemma_wf();
}

/// A borrow that succeeds keeps the account's principal, accrued interest and new loan
/// within the 150% cap, and takes no more than the pool's liquidity.
pub proof fn lemma_borrow_within_limits(m: StorageModel, user: AccountId, now: nat)
    requires
        model_wf(m),
        borrow_spec(m, user, now) is Ok,
    ensures
        guarded(m, now) is Ok,
        ({
            let a = guarded(m, now)->Ok_0;
            let c = amount_of(a.collateral, user);
            let amount = borrow_amount(c, a.price as int);
            &&& borrow_spec(m, user, now)->Ok_0.1.amount == amount
            &&& owed_by(a, user) + amount <= max_borrowable(c, a.price as int)
            &&& amount <= a.total_liquidity
        }),
{
}

/// Repaying applies at most the outstanding principal: the principal total falls, and
/// the pool grows, by the smaller of the amount and the principal; the accrued interest
/// of a position that stays open is not touched.
pub proof fn lemma_repay_caps_at_principal(m: StorageModel, user: AccountId, amount: nat, now: nat)
    requires
        model_wf(m),
        repay_spec(m, user, amount, now) is Ok,
    ensures
        guarded(m, now) is Ok,
        ({
            let a = guarded(m, now)->Ok_0;
            let after = repay_spec(m, user, amount, now)->Ok_0.0;
            let principal = amount_of(a.debt, user);
            let paid = if amount < principal {
                amount as int
            } else {
                principal
            };
            &&& paid <= principal
            &&& a.total_principal_borrowed - after.total_principal_borrowed == paid
            &&& after.total_liquidity - a.total_liquidity == paid
            &&& amount_of(after.debt, user) == principal - paid
            &&& principal - paid > 0 ==> after.accrued == a.accrued
        }),
{
    let a = guarded(m, now)->Ok_0;
    assert(a.debt == m.debt);
    lemma_map_sum_bounds(m.debt, user);
}

/// Settling interest never changes the principal ledger, and an account without
/// principal is charged nothing.
proof fn lemma_accrual_spares_debt_free(m: StorageModel, user: AccountId, now: nat)
    requires
        model_wf(m),
        accrue_spec(m, now) is Some,
        owed_by(m, user) == 0,
    ensures
        accrue_spec(m, now)->Some_0.debt == m.debt,
        owed_by(accrue_spec(m, now)->Some_0, user) == 0,
{
    let a = accrue_spec(m, now)->Some_0;
    if a.accrued != m.accrued {
        let dt = now - m.last_accrual_ts;
        let rate = rate_spec(pool_utilization(m)->Some_0);
        assert(a.accrued == credit_borrowers(m.accrued, m.debt, rate, dt));
        assert(!m.debt.contains_key(user));
        assert(borrower_interest(m.debt, user, rate, dt) == 0);
        assert(!a.accrued.contains_key(user));
    }
}

/// Liquidation succeeds only below the health threshold, and never for a position that
/// owes nothing.
pub proof fn lemma_liquidation_needs_low_health(m: StorageModel, user: AccountId, now: nat)
    requires
        model_wf(m),
    ensures
        liquidate_spec(m, user, now) is Ok ==> {
            &&& guarded(m, now) is Ok
            &&& health_of(guarded(m, now)->Ok_0, user) matches Some(h) && h
                < LIQUIDATION_THRESHOLD
        },
        owed_by(m, user) == 0 ==> liquidate_spec(m, user, now) is Err,
{
    if owed_by(m, user) == 0 && guarded(m, now) is Ok {
        lemma_accrual_spares_debt_free(m, user, now);
    }
}

/// Settling interest over a zero-length interval changes nothing, so settling twice at
/// the same instant is the same as settling once.
pub proof fn lemma_accrual_idempotent(m: StorageModel, now: nat)
    requires
        now >= m.last_accrual_ts,
    ensures
        accrue_spec(m, m.last_accrual_ts) == Some(m),
        accrue_spec(m, now) matches Some(a) ==> accrue_spec(a, now) == Some(a),
{
}

/// While paused, every state-changing operation but `pause` and `resume` is refused with
/// the state unchanged.
pub proof fn lemma_paused_refuses(
    m: StorageModel,
    caller: AccountId,
    user: AccountId,
    amount: nat,
    now: nat,
)
    requires
        m.paused,
        amount > 0,
    ensures
        deposit_spec(m, user, amount, now) == Err::<(StorageModel, CollateralDeposited), LendingError>(
            LendingError::Paused,
        ),
        borrow_spec(m, user, now) == Err::<(StorageModel, Borrowed), LendingError>(
            LendingError::Paused,
        ),
        repay_spec(m, user, amount, now) == Err::<(StorageModel, Repaid), LendingError>(
            LendingError::Paused,
        ),
        withdraw_collateral_spec(m, user, amount, now) == Err::<(StorageModel, u128), LendingError>(
            LendingError::Paused,
        ),
        lend_spec(m, user, amount, now) == Err::<(StorageModel, LiquidityProvided), LendingError>(
            LendingError::Paused,
        ),
        withdraw_spec(m, user, amount, now) == Err::<
            (StorageModel, (LiquidityWithdrawn, InterestClaimed)),
            LendingError,
        >(LendingError::Paused),
        claim_interest_spec(m, user, now) == Err::<(StorageModel, InterestClaimed), LendingError>(
            LendingError::Paused,
        ),
        liquidate_spec(m, user, now) == Err::<(StorageModel, Liquidated), LendingError>(
            LendingError::Paused,
        ),
        update_price_spec(m, caller, amount) == Err::<StorageModel, LendingError>(
            LendingError::Paused,
        ),
        admin_withdraw_funds_spec(m, caller, amount, now) == Err::<(StorageModel, u128), LendingError>(
            LendingError::Paused,
        ),
        admin_withdraw_treasury_spec(m, caller, amount, now) == Err::<
            (StorageModel, u128),
            LendingError,
        >(LendingError::Paused),
{
}

/// Pausing and then resuming leaves the state as it was before the pause.
pub proof fn lemma_pause_resume_round_trip(m: StorageModel, admin: AccountId)
    requires
        admin == m.admin,
        !m.paused,
    ensures
        set_paused_spec(m, admin, true) matches Ok(p) && set_paused_spec(p, admin, false)
            == Ok::<StorageModel, LendingError>(m),
{
    let p = StorageModel { paused: true, ..m };
    assert(StorageModel { paused: false, ..p } == m);
}

} // verus!
