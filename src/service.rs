use vstd::prelude::*;

use crate::account::AccountId;
use crate::error::LendingError;
use crate::events::{
    Borrowed, CollateralDeposited, InterestClaimed, Liquidated, LiquidityProvided,
    LiquidityWithdrawn, Repaid, UserInfo,
};
use crate::ledger::{
    amount_of, lemma_map_of_at, lemma_map_of_contains, lemma_map_sum_bounds, lemma_map_sum_erase,
    lemma_map_sum_insert, Ledger,
};
use crate::model::{
    admin_withdraw_funds_spec, admin_withdraw_treasury_spec, borrow_spec, claim_interest_spec,
    deposit_spec, guarded, health_of, lend_spec, liquidate_spec, model_wf, owed_by,
    pool_utilization, repay_spec, set_paused_spec, update_price_spec, user_info_spec, withdraw_collateral_spec, withdraw_spec, StorageModel,
};
use crate::rates::{
    asset_value, borrow_rate, fits, health_factor, rate_spec, value_spec, DEFAULT_TVARA_PRICE,
    LIQUIDATION_THRESHOLD, MAX_HEALTH, TVARA_UNIT, WAD,
};
use crate::storage::LendingStorage;

verus! {

/// The state of a freshly deployed engine.
pub open spec fn initial_model(vft_address: AccountId, admin: AccountId, now: nat) -> StorageModel {
    StorageModel {
        vft_address,
        admin,
        price: DEFAULT_TVARA_PRICE as nat,
        collateral: Map::empty(),
        debt: Map::empty(),
        accrued: Map::empty(),
        lender_balances: Map::empty(),
        lender_earned: Map::empty(),
        total_liquidity: 0,
        treasury: 0,
        total_interest_earned: 0,
        total_principal_borrowed: 0,
        last_accrual_ts: now,
        paused: false,
        reentrancy: false,
    }
}

/// The lending engine: guarded entry points and queries over one storage record.
///
/// Calls to the collaborators are left to the caller: a successful operation says what to
/// mint, burn or send. `repay` expects the burn to have succeeded already; the other
/// operations are to be followed by the mint, burn or transfer that their result names.
pub struct LendingService {
    storage: LendingStorage,
}

impl View for LendingService {
    type V = StorageModel;

    closed spec fn view(&self) -> StorageModel {
        self.storage@
    }
}

impl LendingService {
    pub closed spec fn wf(&self) -> bool {
        self.storage.wf()
    }

    pub proof fn lemma_wf(&self)
        requires
            self.wf(),
        ensures
            model_wf(self@),
    {
    }

    /// Deploys the engine: `admin` is the deployer, the price starts at 1.0 and the
    /// clock at `now`.
    pub fn init(vft_address: AccountId, admin: AccountId, now: u64) -> (r: LendingService)
        ensures
            r.wf(),
            r@ == initial_model(vft_address, admin, now as nat),
    {
        let storage = LendingStorage {
            vft_address,
            collateral: Ledger::new(),
            tvara_price: DEFAULT_TVARA_PRICE,
            debt: Ledger::new(),
            lender_balances: Ledger::new(),
            lender_interest_earned: Ledger::new(),
            total_liquidity: 0,
            treasury: 0,
            paused: false,
            reentrancy: false,
            admin,
            last_accrual_ts: now,
            total_interest_earned: 0,
            user_accrued_interest: Ledger::new(),
            total_principal_borrowed: 0,
        };
        proof {
            storage.lemma_ledgers_ok();
            assert(storage@ =~= initial_model(vft_address, admin, now as nat));
        }
        LendingService { storage }
    }

    /// Read access to the whole record.
    pub fn get(&self) -> (r: &LendingStorage)
        ensures
            r@ == self@,
    {
        &self.storage
    }

    /// Runs the guard on a working copy: refuses while paused or while another guarded
    /// operation runs, settles interest, and marks the copy as in flight.
    fn begin(&self, now: u64) -> (r: Result<LendingStorage, LendingError>)
        requires
            self.wf(),
            now >= self@.last_accrual_ts,
        ensures
            match guarded(self@, now as nat) {
                Ok(a) => r matches Ok(s) && s@ == (StorageModel { reentrancy: true, ..a })
                    && s.wf(),
                Err(e) => r == Err::<LendingStorage, LendingError>(e),
            },
    {
        if self.storage.paused {
            return Err(LendingError::Paused);
        }
        if self.storage.reentrancy {
            return Err(LendingError::Reentrant);
        }
        let mut s = self.storage.duplicate();
        if !s.accrue_interest(now) {
            return Err(LendingError::Overflow);
        }
        s.reentrancy = true;
        Ok(s)
    }

    /// Ends a guarded operation: clears the in-flight mark and keeps the working copy.
    fn commit(&mut self, s: LendingStorage)
        requires
            s.wf(),
        ensures
            final(self).wf(),
            final(self)@ == (StorageModel { reentrancy: false, ..s@ }),
    {
        let mut s = s;
        s.reentrancy = false;
        self.storage = s;
    }

    /// Adds the attached `amount` to `user`'s collateral.
    pub fn deposit_collateral(&mut self, user: AccountId, amount: u128, now: u64) -> (r: Result<
        CollateralDeposited,
        LendingError,
    >)
        requires
            old(self).wf(),
            now >= old(self)@.last_accrual_ts,
        ensures
            final(self).wf(),
            match deposit_spec(old(self)@, user, amount as nat, now as nat) {
                Ok((m, out)) => r == Ok::<CollateralDeposited, LendingError>(out) && final(self)@
                    == m,
                Err(e) => r == Err::<CollateralDeposited, LendingError>(e) && final(self)@ == old(
                    self,
                )@,
            },
    {
        if amount == 0 {
            return Err(LendingError::ZeroAmount);
        }
        let mut s = match self.begin(now) {
            Ok(s) => s,
            Err(e) => return Err(e),
        };
        let c = match s.collateral.get(user).checked_add(amount) {
            Some(c) => c,
            None => return Err(LendingError::Overflow),
        };
        s.collateral.set(user, c);
        proof {
            s.lemma_ledgers_ok();
        }
        self.commit(s);
        Ok(CollateralDeposited { user, amount })
    }

    /// Lends against `user`'s collateral at the conservative ratio, within the LTV cap
    /// and the available liquidity. The result names the amount to mint to `user`; a loan
    /// that rounds to nothing is refused, as the paired token mints only non-zero amounts.
    pub fn borrow(&mut self, user: AccountId, now: u64) -> (r: Result<Borrowed, LendingError>)
        requires
            old(self).wf(),
            now >= old(self)@.last_accrual_ts,
        ensures
            final(self).wf(),
            match borrow_spec(old(self)@, user, now as nat) {
                Ok((m, out)) => r == Ok::<Borrowed, LendingError>(out) && final(self)@ == m,
                Err(e) => r == Err::<Borrowed, LendingError>(e) && final(self)@ == old(self)@,
            },
    {
        let mut s = match self.begin(now) {
            Ok(s) => s,
            Err(e) => return Err(e),
        };
        let c = s.collateral.get(user);
        if c == 0 {
            return Err(LendingError::NoCollateral);
        }
        let price = s.tvara_price;
        let value = match asset_value(c, price) {
            Some(v) => v,
            None => return Err(LendingError::Overflow),
        };
        let capped = match value.checked_mul(100) {
            Some(v) => v / 150,
            None => return Err(LendingError::Overflow),
        };
        let safe = match value.checked_mul(66) {
            Some(v) => v / 100,
            None => return Err(LendingError::Overflow),
        };
        let max_borrowable = match capped.checked_mul(TVARA_UNIT) {
            Some(v) => v / price,
            None => return Err(LendingError::Overflow),
        };
        let amount = match safe.checked_mul(TVARA_UNIT) {
            Some(v) => v / price,
            None => return Err(LendingError::Overflow),
        };
        let principal = s.debt.get(user);
        let owed = match principal.checked_add(s.user_accrued_interest.get(user)) {
            Some(v) => v,
            None => return Err(LendingError::Overflow),
        };
        let total = match owed.checked_add(amount) {
            Some(v) => v,
            None => return Err(LendingError::Overflow),
        };
        if total > max_borrowable {
            return Err(LendingError::ExceedsLtv);
        }
        if amount > s.total_liquidity {
            return Err(LendingError::InsufficientLiquidity);
        }
        if amount == 0 {
            return Err(LendingError::ZeroAmount);
        }
        let borrowed = match s.total_principal_borrowed.checked_add(amount) {
            Some(v) => v,
            None => return Err(LendingError::Overflow),
        };
        proof {
            lemma_map_sum_bounds(s.debt@, user);
            lemma_map_sum_insert(s.debt@, user, (principal + amount) as nat);
        }
        s.debt.set(user, principal + amount);
        s.total_principal_borrowed = borrowed;
        s.total_liquidity = s.total_liquidity - amount;
        proof {
            s.lemma_ledgers_ok();
        }
        self.commit(s);
        Ok(Borrowed { user, amount })
    }

    /// Applies `amount` of burned tokens to `user`'s principal, at most the principal.
    /// When the principal reaches zero the position closes: accrued interest is settled
    /// out of the collateral and the rest is named for return to `user`.
    pub fn repay(&mut self, user: AccountId, amount: u128, now: u64) -> (r: Result<Repaid, LendingError>)
        requires
            old(self).wf(),
            now >= old(self)@.last_accrual_ts,
        ensures
            final(self).wf(),
            match repay_spec(old(self)@, user, amount as nat, now as nat) {
                Ok((m, out)) => r == Ok::<Repaid, LendingError>(out) && final(self)@ == m,
                Err(e) => r == Err::<Repaid, LendingError>(e) && final(self)@ == old(self)@,
            },
    {
        let mut s = match self.begin(now) {
            Ok(s) => s,
            Err(e) => return Err(e),
        };
        let principal = s.debt.get(user);
        let interest = s.user_accrued_interest.get(user);
        let paid = if amount < principal {
            amount
        } else {
            principal
        };
        let liquidity = match s.total_liquidity.checked_add(paid) {
            Some(v) => v,
            None => return Err(LendingError::Overflow),
        };
        proof {
            lemma_map_sum_bounds(s.debt@, user);
        }
        s.total_principal_borrowed = s.total_principal_borrowed - paid;
        s.total_liquidity = liquidity;
        let rest = principal - paid;
        if rest > 0 {
            proof {
                lemma_map_sum_insert(s.debt@, user, rest as nat);
            }
            s.debt.set(user, rest);
            proof {
                s.lemma_ledgers_ok();
            }
            self.commit(s);
            return Ok(
                Repaid {
                    user,
                    amount,
                    collateral_to_return: 0,
                    interest_deducted: 0,
                    debt_fully_paid: false,
                },
            );
        }
        let c = s.collateral.get(user);
        let (collateral_to_return, interest_deducted) = if c >= interest {
            (c - interest, interest)
        } else {
            (0, c)
        };
        proof {
            lemma_map_sum_erase(s.debt@, user);
        }
        s.collateral.remove(user);
        s.debt.remove(user);
        s.user_accrued_interest.remove(user);
        proof {
            s.lemma_ledgers_ok();
        }
        self.commit(s);
        Ok(Repaid { user, amount, collateral_to_return, interest_deducted, debt_fully_paid: true })
    }

    /// Releases `amount` of `user`'s collateral, provided what remains still backs the
    /// outstanding debt under the 150% cap. The result is the amount to send to `user`.
    pub fn withdraw_collateral(&mut self, user: AccountId, amount: u128, now: u64) -> (r: Result<
        u128,
        LendingError,
    >)
        requires
            old(self).wf(),
            now >= old(self)@.last_accrual_ts,
        ensures
            final(self).wf(),
            match withdraw_collateral_spec(old(self)@, user, amount as nat, now as nat) {
                Ok((m, out)) => r == Ok::<u128, LendingError>(out) && final(self)@ == m,
                Err(e) => r == Err::<u128, LendingError>(e) && final(self)@ == old(self)@,
            },
    {
        let mut s = match self.begin(now) {
            Ok(s) => s,
            Err(e) => return Err(e),
        };
        let c = s.collateral.get(user);
        let principal = s.debt.get(user);
        let interest = s.user_accrued_interest.get(user);
        if c < amount {
            return Err(LendingError::InsufficientCollateral);
        }
        let remaining = c - amount;
        if principal > 0 || interest > 0 {
            let owed = match principal.checked_add(interest) {
                Some(v) => v,
                None => return Err(LendingError::Overflow),
            };
            let price = s.tvara_price;
            let remaining_value = match asset_value(remaining, price) {
                Some(v) => v,
                None => return Err(LendingError::Overflow),
            };
            let owed_value = match asset_value(owed, price) {
                Some(v) => v,
                None => return Err(LendingError::Overflow),
            };
            let allowed = match remaining_value.checked_mul(100) {
                Some(v) => v / 150,
                None => return Err(LendingError::Overflow),
            };
            if owed_value > allowed {
                return Err(LendingError::ExceedsLtv);
            }
        }
        if remaining == 0 {
            s.collateral.remove(user);
        } else {
            s.collateral.set(user, remaining);
        }
        proof {
            s.lemma_ledgers_ok();
        }
        self.commit(s);
        Ok(amount)
    }

    /// Credits the attached `amount` to `lender`'s balance and to the pool. The result
    /// names the amount to mint to `lender`.
    pub fn lend(&mut self, lender: AccountId, amount: u128, now: u64) -> (r: Result<
        LiquidityProvided,
        LendingError,
    >)
        requires
            old(self).wf(),
            now >= old(self)@.last_accrual_ts,
        ensures
            final(self).wf(),
            match lend_spec(old(self)@, lender, amount as nat, now as nat) {
                Ok((m, out)) => r == Ok::<LiquidityProvided, LendingError>(out) && final(self)@
                    == m,
                Err(e) => r == Err::<LiquidityProvided, LendingError>(e) && final(self)@ == old(
                    self,
                )@,
            },
    {
        if amount == 0 {
            return Err(LendingError::ZeroAmount);
        }
        let mut s = match self.begin(now) {
            Ok(s) => s,
            Err(e) => return Err(e),
        };
        let balance = match s.lender_balances.get(lender).checked_add(amount) {
            Some(v) => v,
            None => return Err(LendingError::Overflow),
        };
        let liquidity = match s.total_liquidity.checked_add(amount) {
            Some(v) => v,
            None => return Err(LendingError::Overflow),
        };
        s.lender_balances.set(lender, balance);
        s.total_liquidity = liquidity;
        proof {
            s.lemma_ledgers_ok();
        }
        self.commit(s);
        Ok(LiquidityProvided { lender, amount })
    }

    /// Takes `amount` of `lender`'s principal out of the pool and pays out its earned
    /// interest with it. The result names the principal to burn and the interest; both
    /// are sent to `lender` in one payment, whose sum is known to fit in `u128`.
    pub fn withdraw(&mut self, lender: AccountId, amount: u128, now: u64) -> (r: Result<
        (LiquidityWithdrawn, InterestClaimed),
        LendingError,
    >)
        requires
            old(self).wf(),
            now >= old(self)@.last_accrual_ts,
        ensures
            final(self).wf(),
            match withdraw_spec(old(self)@, lender, amount as nat, now as nat) {
                Ok((m, out)) => r == Ok::<(LiquidityWithdrawn, InterestClaimed), LendingError>(out)
                    && final(self)@ == m,
                Err(e) => r == Err::<(LiquidityWithdrawn, InterestClaimed), LendingError>(e)
                    && final(self)@ == old(self)@,
            },
    {
        let mut s = match self.begin(now) {
            Ok(s) => s,
            Err(e) => return Err(e),
        };
        let balance = s.lender_balances.get(lender);
        let earned = s.lender_interest_earned.get(lender);
        if balance < amount {
            return Err(LendingError::InsufficientBalance);
        }
        if s.total_liquidity < amount {
            return Err(LendingError::InsufficientLiquidity);
        }
        if amount.checked_add(earned).is_none() {
            return Err(LendingError::Overflow);
        }
        s.lender_balances.set(lender, balance - amount);
        s.total_liquidity = s.total_liquidity - amount;
        s.lender_interest_earned.set(lender, 0);
        proof {
            s.lemma_ledgers_ok();
        }
        self.commit(s);
        Ok((LiquidityWithdrawn { lender, amount }, InterestClaimed { lender, amount: earned }))
    }

    /// Pays out `lender`'s earned interest without touching its principal.
    pub fn claim_interest(&mut self, lender: AccountId, now: u64) -> (r: Result<
        InterestClaimed,
        LendingError,
    >)
        requires
            old(self).wf(),
            now >= old(self)@.last_accrual_ts,
        ensures
            final(self).wf(),
            match claim_interest_spec(old(self)@, lender, now as nat) {
                Ok((m, out)) => r == Ok::<InterestClaimed, LendingError>(out) && final(self)@
                    == m,
                Err(e) => r == Err::<InterestClaimed, LendingError>(e) && final(self)@ == old(
                    self,
                )@,
            },
    {
        let mut s = match self.begin(now) {
            Ok(s) => s,
            Err(e) => return Err(e),
        };
        let earned = s.lender_interest_earned.get(lender);
        if earned == 0 {
            return Err(LendingError::NothingToClaim);
        }
        s.lender_interest_earned.set(lender, 0);
        proof {
            s.lemma_ledgers_ok();
        }
        self.commit(s);
        Ok(InterestClaimed { lender, amount: earned })
    }

    /// Closes `user`'s position when its health factor is below the threshold: the
    /// collateral goes to the pool and the debt is written off.
    pub fn liquidate(&mut self, user: AccountId, now: u64) -> (r: Result<Liquidated, LendingError>)
        requires
            old(self).wf(),
            now >= old(self)@.last_accrual_ts,
        ensures
            final(self).wf(),
            match liquidate_spec(old(self)@, user, now as nat) {
                Ok((m, out)) => r == Ok::<Liquidated, LendingError>(out) && final(self)@ == m,
                Err(e) => r == Err::<Liquidated, LendingError>(e) && final(self)@ == old(self)@,
            },
    {
        let mut s = match self.begin(now) {
            Ok(s) => s,
            Err(e) => return Err(e),
        };
        let c = s.collateral.get(user);
        let principal = s.debt.get(user);
        let owed = match principal.checked_add(s.user_accrued_interest.get(user)) {
            Some(v) => v,
            None => return Err(LendingError::Overflow),
        };
        if c == 0 {
            return Err(LendingError::NoCollateral);
        }
        if owed == 0 {
            return Err(LendingError::NoDebt);
        }
        let health = match health_factor(c, owed, s.tvara_price) {
            Some(h) => h,
            None => return Err(LendingError::Overflow),
        };
        if health >= LIQUIDATION_THRESHOLD {
            return Err(LendingError::Healthy);
        }
        let liquidity = match s.total_liquidity.checked_add(c) {
            Some(v) => v,
            None => return Err(LendingError::Overflow),
        };
        proof {
            lemma_map_sum_bounds(s.debt@, user);
            lemma_map_sum_erase(s.debt@, user);
        }
        s.collateral.remove(user);
        s.debt.remove(user);
        s.user_accrued_interest.remove(user);
        s.total_principal_borrowed = s.total_principal_borrowed - principal;
        s.total_liquidity = liquidity;
        proof {
            s.lemma_ledgers_ok();
        }
        self.commit(s);
        Ok(Liquidated { user, collateral_sold: c, debt_cleared: owed })
    }

    /// Admin only: stops every guarded operation.
    pub fn pause(&mut self, caller: AccountId) -> (r: Result<(), LendingError>)
        requires
            old(self).wf(),
        ensures
            final(self).wf(),
            match set_paused_spec(old(self)@, caller, true) {
                Ok(m) => r is Ok && final(self)@ == m,
                Err(e) => r == Err::<(), LendingError>(e) && final(self)@ == old(self)@,
            },
    {
        if caller != self.storage.admin {
            return Err(LendingError::NotAdmin);
        }
        self.storage.paused = true;
        Ok(())
    }

    /// Admin only: lets guarded operations run again.
    pub fn resume(&mut self, caller: AccountId) -> (r: Result<(), LendingError>)
        requires
            old(self).wf(),
        ensures
            final(self).wf(),
            match set_paused_spec(old(self)@, caller, false) {
                Ok(m) => r is Ok && final(self)@ == m,
                Err(e) => r == Err::<(), LendingError>(e) && final(self)@ == old(self)@,
            },
    {
        if caller != self.storage.admin {
            return Err(LendingError::NotAdmin);
        }
        self.storage.paused = false;
        Ok(())
    }

    /// Admin only: sets a new, non-zero price. Refused while paused, like every other
    /// state change but `pause` and `resume`.
    pub fn update_tvara_price(&mut self, caller: AccountId, new_price: u128) -> (r: Result<
        (),
        LendingError,
    >)
        requires
            old(self).wf(),
        ensures
            final(self).wf(),
            match update_price_spec(old(self)@, caller, new_price as nat) {
                Ok(m) => r is Ok && final(self)@ == m,
                Err(e) => r == Err::<(), LendingError>(e) && final(self)@ == old(self)@,
            },
    {
        if self.storage.paused {
            return Err(LendingError::Paused);
        }
        if caller != self.storage.admin {
            return Err(LendingError::NotAdmin);
        }
        if new_price == 0 {
            return Err(LendingError::InvalidPrice);
        }
        self.storage.tvara_price = new_price;
        Ok(())
    }

    /// Admin only: takes `amount` asset units out of the pool. The result is the native
    /// value, at the current price, to send to the admin.
    pub fn admin_withdraw_funds(&mut self, caller: AccountId, amount: u128, now: u64) -> (r: Result<
        u128,
        LendingError,
    >)
        requires
            old(self).wf(),
            now >= old(self)@.last_accrual_ts,
        ensures
            final(self).wf(),
            match admin_withdraw_funds_spec(old(self)@, caller, amount as nat, now as nat) {
                Ok((m, out)) => r == Ok::<u128, LendingError>(out) && final(self)@ == m,
                Err(e) => r == Err::<u128, LendingError>(e) && final(self)@ == old(self)@,
            },
    {
        let mut s = match self.begin(now) {
            Ok(s) => s,
            Err(e) => return Err(e),
        };
        if caller != s.admin {
            return Err(LendingError::NotAdmin);
        }
        if amount == 0 {
            return Err(LendingError::ZeroAmount);
        }
        if s.total_liquidity < amount {
            return Err(LendingError::InsufficientLiquidity);
        }
        let native = match amount.checked_mul(s.tvara_price) {
            Some(v) => v / WAD,
            None => return Err(LendingError::Overflow),
        };
        s.total_liquidity = s.total_liquidity - amount;
        self.commit(s);
        Ok(native)
    }

    /// Admin only: takes `amount` asset units out of the treasury. The result is the
    /// native value, at the current price, to send to the admin.
    pub fn admin_withdraw_treasury(&mut self, caller: AccountId, amount: u128, now: u64) -> (r: Result<
        u128,
        LendingError,
    >)
        requires
            old(self).wf(),
            now >= old(self)@.last_accrual_ts,
        ensures
            final(self).wf(),
            match admin_withdraw_treasury_spec(old(self)@, caller, amount as nat, now as nat) {
                Ok((m, out)) => r == Ok::<u128, LendingError>(out) && final(self)@ == m,
                Err(e) => r == Err::<u128, LendingError>(e) && final(self)@ == old(self)@,
            },
    {
        let mut s = match self.begin(now) {
            Ok(s) => s,
            Err(e) => return Err(e),
        };
        if caller != s.admin {
            return Err(LendingError::NotAdmin);
        }
        if amount == 0 {
            return Err(LendingError::ZeroAmount);
        }
        if s.treasury < amount {
            return Err(LendingError::InsufficientLiquidity);
        }
        let native = match amount.checked_mul(s.tvara_price) {
            Some(v) => v / WAD,
            None => return Err(LendingError::Overflow),
        };
        s.treasury = s.treasury - amount;
        self.commit(s);
        Ok(native)
    }

    pub fn get_tvara_price(&self) -> (r: u128)
        ensures
            r == self@.price,
    {
        self.storage.tvara_price
    }

    pub fn get_collateral(&self, user: AccountId) -> (r: u128)
        requires
            self.wf(),
        ensures
            r == amount_of(self@.collateral, user),
    {
        self.storage.collateral.get(user)
    }

    /// Principal debt of `user`, without accrued interest.
    pub fn get_debt(&self, user: AccountId) -> (r: u128)
        requires
            self.wf(),
        ensures
            r == amount_of(self@.debt, user),
    {
        self.storage.debt.get(user)
    }

    /// Principal plus accrued interest of `user`; `None` when the sum exceeds `u128`.
    pub fn get_total_outstanding_debt(&self, user: AccountId) -> (r: Option<u128>)
        requires
            self.wf(),
        ensures
            r == (if fits(owed_by(self@, user)) {
                Some(owed_by(self@, user) as u128)
            } else {
                None
            }),
    {
        self.storage.debt.get(user).checked_add(self.storage.user_accrued_interest.get(user))
    }

    pub fn get_liquidity(&self) -> (r: u128)
        ensures
            r == self@.total_liquidity,
    {
        self.storage.total_liquidity
    }

    pub fn get_lender_balance(&self, user: AccountId) -> (r: u128)
        requires
            self.wf(),
        ensures
            r == amount_of(self@.lender_balances, user),
    {
        self.storage.lender_balances.get(user)
    }

    pub fn is_paused(&self) -> (r: bool)
        ensures
            r == self@.paused,
    {
        self.storage.paused
    }

    pub fn get_admin(&self) -> (r: AccountId)
        ensures
            r == self@.admin,
    {
        self.storage.admin
    }

    /// Health factor of `user`'s position; the maximum when it owes nothing, `None` when
    /// it cannot be computed in `u128`.
    pub fn get_health_factor(&self, user: AccountId) -> (r: Option<u128>)
        requires
            self.wf(),
        ensures
            match health_of(self@, user) {
                Some(h) => r == Some(h as u128) && fits(h),
                None => r is None,
            },
    {
        let c = self.storage.collateral.get(user);
        let owed = match self.storage.debt.get(user).checked_add(
            self.storage.user_accrued_interest.get(user),
        ) {
            Some(v) => v,
            None => return None,
        };
        health_factor(c, owed, self.storage.tvara_price)
    }

    pub fn get_user_accrued_interest(&self, user: AccountId) -> (r: u128)
        requires
            self.wf(),
        ensures
            r == amount_of(self@.accrued, user),
    {
        self.storage.user_accrued_interest.get(user)
    }

    pub fn get_lender_earned_interest(&self, user: AccountId) -> (r: u128)
        requires
            self.wf(),
        ensures
            r == amount_of(self@.lender_earned, user),
    {
        self.storage.lender_interest_earned.get(user)
    }

    pub fn get_lender_interest_earned(&self, lender: AccountId) -> (r: u128)
        requires
            self.wf(),
        ensures
            r == amount_of(self@.lender_earned, lender),
    {
        self.get_lender_earned_interest(lender)
    }

    pub fn get_treasury_balance(&self) -> (r: u128)
        ensures
            r == self@.treasury,
    {
        self.storage.treasury
    }

    pub fn get_last_accrual_ts(&self) -> (r: u64)
        ensures
            r == self@.last_accrual_ts,
    {
        self.storage.last_accrual_ts
    }

    pub fn get_total_principal_borrowed(&self) -> (r: u128)
        ensures
            r == self@.total_principal_borrowed,
    {
        self.storage.total_principal_borrowed
    }

    /// Utilization of the pool in WAD; `None` when it cannot be computed in `u128`.
    pub fn get_utilization_rate(&self) -> (r: Option<u128>)
        requires
            self.wf(),
        ensures
            match pool_utilization(self@) {
                Some(u) => r == Some(u as u128) && 0 <= u <= WAD,
                None => r is None,
            },
    {
        self.storage.utilization_rate()
    }

    /// Yearly borrow rate in WAD at the current utilization.
    pub fn get_borrow_rate_per_year(&self) -> (r: Option<u128>)
        requires
            self.wf(),
        ensures
            match pool_utilization(self@) {
                Some(u) => r == Some(rate_spec(u) as u128) && fits(rate_spec(u)),
                None => r is None,
            },
    {
        match self.storage.utilization_rate() {
            Some(u) => Some(borrow_rate(u)),
            None => None,
        }
    }

    /// Everything known of `user`; `None` when its health factor cannot be computed.
    pub fn get_user_info(&self, user: AccountId) -> (r: Option<UserInfo>)
        requires
            self.wf(),
        ensures
            r == user_info_spec(self@, user),
    {
        let principal = self.storage.debt.get(user);
        let interest = self.storage.user_accrued_interest.get(user);
        let health_factor = if principal > 0 || interest > 0 {
            match self.get_health_factor(user) {
                Some(h) => h,
                None => return None,
            }
        } else {
            MAX_HEALTH
        };
        Some(
            UserInfo {
                collateral: self.storage.collateral.get(user),
                debt: principal,
                lender_balance: self.storage.lender_balances.get(user),
                tvara_price: self.storage.tvara_price,
                health_factor,
                accrued_interest: interest,
                lender_interest_earned: self.storage.lender_interest_earned.get(user),
            },
        )
    }

    /// Collateral, principal debt, collateral value and price for `user`; `None` when the
    /// collateral value exceeds `u128`.
    pub fn get_user_position(&self, user: AccountId) -> (r: Option<(u128, u128, u128, u128)>)
        requires
            self.wf(),
        ensures
            r == (if fits(amount_of(self@.collateral, user) * self@.price) {
                Some(
                    (
                        amount_of(self@.collateral, user) as u128,
                        amount_of(self@.debt, user) as u128,
                        value_spec(amount_of(self@.collateral, user), self@.price as int) as u128,
                        self@.price as u128,
                    ),
                )
            } else {
                None
            }),
    {
        let c = self.storage.collateral.get(user);
        match asset_value(c, self.storage.tvara_price) {
            Some(v) => Some((c, self.storage.debt.get(user), v, self.storage.tvara_price)),
            None => None,
        }
    }

    /// Every account with principal debt, each once, with its full position; `None` when
    /// the position of one of them cannot be reported.
    pub fn get_all_borrowers_info(&self) -> (r: Option<Vec<(AccountId, UserInfo)>>)
        requires
            self.wf(),
        ensures
            match r {
                Some(v) => {
                    &&& forall|j: int|
                        0 <= j < v@.len() ==> self@.debt.contains_key(#[trigger] v@[j].0)
                            && user_info_spec(self@, v@[j].0) == Some(v@[j].1)
                    &&& forall|k: AccountId| #[trigger]
                        self@.debt.contains_key(k) ==> exists|j: int|
                            0 <= j < v@.len() && v@[j].0 == k
                    &&& forall|i: int, j: int| 0 <= i < j < v@.len() ==> v@[i].0 != v@[j].0
                },
                None => exists|k: AccountId| #[trigger]
                    self@.debt.contains_key(k) && user_info_spec(self@, k) is None,
            },
    {
        let entries = &self.storage.debt.entries;
        let ghost s = entries@;
        let mut out: Vec<(AccountId, UserInfo)> = Vec::new();
        let mut i: usize = 0;
        while i < entries.len()
            invariant
                s == entries@,
                s == self.storage.debt.entries@,
                self.wf(),
                i <= s.len(),
                out@.len() == i,
                forall|j: int|
                    0 <= j < i ==> (#[trigger] out@[j]).0 == s[j].account && user_info_spec(
                        self@,
                        s[j].account,
                    ) == Some(out@[j].1),
            decreases s.len() - i,
        {
            let account = entries[i].account;
            match self.get_user_info(account) {
                Some(info) => {
                    out.push((account, info));
                },
                None => {
                    proof {
                        lemma_map_of_at(s, i as int);
                    }
                    return None;
                },
            }
            i = i + 1;
        }
        proof {
            assert forall|j: int| 0 <= j < out@.len() implies self@.debt.contains_key(
                #[trigger] out@[j].0,
            ) by {
                lemma_map_of_at(s, j);
            }
            assert forall|k: AccountId| #[trigger] self@.debt.contains_key(k) implies exists|j: int|
                0 <= j < out@.len() && out@[j].0 == k by {
                lemma_map_of_contains(s, k);
                let j = choose|j: int| 0 <= j < s.len() && s[j].account == k;
                assert(out@[j].0 == k);
            }
        }
        Some(out)
    }
}

} // verus!
