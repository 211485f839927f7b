use vstd::prelude::*;

use crate::account::AccountId;
use crate::ledger::{
    amount_of, keys_unique, lemma_map_of_at, lemma_map_of_bounded, lemma_prefix_step, map_of, Ledger, LedgerEntry,
};
use crate::model::{
    accrue_spec, borrower_interest, borrowers_fit, credit_borrowers, credit_lenders,
    ledger_ok, lender_share, lenders_fit, model_wf, pool_utilization, shares_in, StorageModel,
};
use crate::rates::{
    borrow_rate, fits, interest_for, interest_spec, utilization, LENDER_INTEREST_SHARE,
    SECONDS_PER_YEAR, TREASURY_INTEREST_SHARE, WAD,
};

verus! {

/// The whole state of the lending engine.
#[derive(Debug)]
pub struct LendingStorage {
    /// The paired fungible token that is minted and burned against principal.
    pub vft_address: AccountId,
    /// Native asset deposited as collateral.
    pub collateral: Ledger,
    /// Asset price in WAD.
    pub tvara_price: u128,
    /// Outstanding principal per borrower.
    pub debt: Ledger,
    /// Liquidity supplied per lender.
    pub lender_balances: Ledger,
    /// Interest credited to each lender and not yet claimed.
    pub lender_interest_earned: Ledger,
    /// Unborrowed liquidity available to lend out.
    pub total_liquidity: u128,
    pub treasury: u128,
    pub paused: bool,
    /// Set while a guarded operation runs.
    pub reentrancy: bool,
    pub admin: AccountId,
    pub last_accrual_ts: u64,
    /// All interest ever generated.
    pub total_interest_earned: u128,
    /// Interest accrued per borrower since its position was opened.
    pub user_accrued_interest: Ledger,
    pub total_principal_borrowed: u128,
}

impl View for LendingStorage {
    type V = StorageModel;

    open spec fn view(&self) -> StorageModel {
        StorageModel {
            vft_address: self.vft_address,
            admin: self.admin,
            price: self.tvara_price as nat,
            collateral: self.collateral@,
            debt: self.debt@,
            accrued: self.user_accrued_interest@,
            lender_balances: self.lender_balances@,
            lender_earned: self.lender_interest_earned@,
            total_liquidity: self.total_liquidity as nat,
            treasury: self.treasury as nat,
            total_interest_earned: self.total_interest_earned as nat,
            total_principal_borrowed: self.total_principal_borrowed as nat,
            last_accrual_ts: self.last_accrual_ts as nat,
            paused: self.paused,
            reentrancy: self.reentrancy,
        }
    }
}

/// Credits every lender with a non-zero balance its share of `lender_total`.
fn credit_lenders_exec(earned: &mut Ledger, balances: &Ledger, lender_total: u128, liquidity: u128) -> (ok: bool)
    requires
        old(earned).wf(),
        balances.wf(),
        liquidity > 0,
    ensures
        final(earned).wf(),
        ok == lenders_fit(old(earned)@, balances@, lender_total as int, liquidity as int),
        ok ==> final(earned)@ == credit_lenders(
            old(earned)@,
            balances@,
            lender_total as int,
            liquidity as int,
        ),
{
    let ghost s = balances.entries@;
    let ghost e0 = earned@;
    let ghost lt = lender_total as int;
    let ghost liq = liquidity as int;
    let mut i: usize = 0;
    assert(s.take(0) =~= Seq::<LedgerEntry>::empty());
    while i < balances.entries.len()
        invariant
            s == balances.entries@,
            keys_unique(s),
            i <= s.len(),
            earned.wf(),
            liquidity > 0,
            e0 == old(earned)@,
            lt == lender_total as int,
            liq == liquidity as int,
            lenders_fit(e0, map_of(s.take(i as int)), lt, liq),
            forall|k: AccountId| #[trigger]
                earned@.contains_key(k) <==> (e0.contains_key(k) || shares_in(
                    map_of(s.take(i as int)),
                    k,
                )),
            forall|k: AccountId| #[trigger]
                earned@.contains_key(k) ==> earned@[k] == (if shares_in(
                    map_of(s.take(i as int)),
                    k,
                ) {
                    amount_of(e0, k) + lender_share(
                        map_of(s.take(i as int))[k] as int,
                        lt,
                        liq,
                    )
                } else {
                    e0[k] as int
                }),
        decreases s.len() - i,
    {
        let ghost p = map_of(s.take(i as int));
        proof {
            lemma_prefix_step(s, i as int);
        }
        let ghost q = map_of(s.take(i + 1));
        let e = balances.entries[i];
        if e.amount > 0 {
            let cur = earned.get(e.account);
            assert(cur == amount_of(e0, e.account));
            let product = match e.amount.checked_mul(lender_total) {
                Some(v) => v,
                None => {
                    proof {
                        lemma_map_of_at(s, i as int);
                        assert(shares_in(balances@, e.account));
                    }
                    return false;
                },
            };
            let share = product / liquidity;
            proof {
                lemma_map_of_at(s, i as int);
                assert(balances@[e.account] == e.amount);
                assert(q[e.account] == e.amount);
                assert(lender_share(e.amount as int, lt, liq) == share);
            }
            let next = match cur.checked_add(share) {
                Some(v) => v,
                None => {
                    proof {
                        assert(!fits(
                            amount_of(e0, e.account) + lender_share(
                                balances@[e.account] as int,
                                lt,
                                liq,
                            ),
                        ));
                        assert(shares_in(balances@, e.account));
                    }
                    return false;
                },
            };
            earned.set(e.account, next);
            assert forall|k: AccountId| #[trigger] shares_in(q, k) implies fits(q[k] * lt) && fits(
                amount_of(e0, k) + lender_share(q[k] as int, lt, liq),
            ) by {
                if k != e.account {
                    assert(shares_in(p, k));
                }
            }
        } else {
            assert forall|k: AccountId| #[trigger] shares_in(q, k) implies fits(q[k] * lt) && fits(
                amount_of(e0, k) + lender_share(q[k] as int, lt, liq),
            ) by {
                assert(shares_in(p, k));
            }
        }
        i = i + 1;
    }
    proof {
        assert(s.take(s.len() as int) =~= s);
        assert(earned@ =~= credit_lenders(e0, balances@, lt, liq));
    }
    true
}

/// Charges every borrower interest on its own principal for `dt` seconds at `rate`.
fn credit_borrowers_exec(accrued: &mut Ledger, debts: &Ledger, rate: u128, dt: u128) -> (ok: bool)
    requires
        old(accrued).wf(),
        debts.wf(),
    ensures
        final(accrued).wf(),
        ok == borrowers_fit(old(accrued)@, debts@, rate as int, dt as int),
        ok ==> final(accrued)@ == credit_borrowers(old(accrued)@, debts@, rate as int, dt as int),
{
    let ghost s = debts.entries@;
    let ghost a0 = accrued@;
    let ghost r = rate as int;
    let ghost d = dt as int;
    let mut i: usize = 0;
    assert(s.take(0) =~= Seq::<LedgerEntry>::empty());
    while i < debts.entries.len()
        invariant
            s == debts.entries@,
            keys_unique(s),
            i <= s.len(),
            accrued.wf(),
            a0 == old(accrued)@,
            r == rate as int,
            d == dt as int,
            borrowers_fit(a0, map_of(s.take(i as int)), r, d),
            forall|k: AccountId| #[trigger]
                accrued@.contains_key(k) <==> (a0.contains_key(k) || borrower_interest(
                    map_of(s.take(i as int)),
                    k,
                    r,
                    d,
                ) > 0),
            forall|k: AccountId| #[trigger]
                accrued@.contains_key(k) ==> accrued@[k] == amount_of(a0, k) + borrower_interest(
                    map_of(s.take(i as int)),
                    k,
                    r,
                    d,
                ),
        decreases s.len() - i,
    {
        let ghost p = map_of(s.take(i as int));
        proof {
            lemma_prefix_step(s, i as int);
        }
        let ghost q = map_of(s.take(i + 1));
        let e = debts.entries[i];
        let charged = match interest_for(e.amount, rate, dt) {
            Some(v) => v,
            None => {
                proof {
                    lemma_map_of_at(s, i as int);
                    assert(debts@.contains_key(e.account));
                }
                return false;
            },
        };
        proof {
            lemma_map_of_at(s, i as int);
            assert(debts@[e.account] == e.amount);
            assert(q[e.account] == e.amount);
        }
        assert(charged == borrower_interest(q, e.account, r, d));
        if charged > 0 {
            let cur = accrued.get(e.account);
            assert(cur == amount_of(a0, e.account));
            let next = match cur.checked_add(charged) {
                Some(v) => v,
                None => {
                    proof {
                        assert(!fits(
                            amount_of(a0, e.account) + interest_spec(debts@[e.account] as int, r, d),
                        ));
                        assert(debts@.contains_key(e.account));
                    }
                    return false;
                },
            };
            accrued.set(e.account, next);
        } else {
            proof {
                lemma_map_of_bounded(accrued.entries@);
                assert(borrower_interest(p, e.account, r, d) == 0);
                assert(amount_of(a0, e.account) == amount_of(accrued@, e.account));
            }
        }
        assert forall|k: AccountId| #[trigger] q.contains_key(k) implies fits(q[k] * r) && fits(
            q[k] * r * d,
        ) && fits(amount_of(a0, k) + interest_spec(q[k] as int, r, d)) by {
            if k != e.account {
                assert(p.contains_key(k));
            }
        }
        assert forall|k: AccountId| k != e.account implies #[trigger] borrower_interest(q, k, r, d)
            == borrower_interest(p, k, r, d) by {}
        i = i + 1;
    }
    proof {
        assert(s.take(s.len() as int) =~= s);
        assert(accrued@ =~= credit_borrowers(a0, debts@, r, d));
    }
    true
}

impl LendingStorage {
    pub open spec fn wf(&self) -> bool {
        &&& self.collateral.wf()
        &&& self.debt.wf()
        &&& self.lender_balances.wf()
        &&& self.lender_interest_earned.wf()
        &&& self.user_accrued_interest.wf()
        &&& model_wf(self@)
    }

    /// The ledgers' maps are finite and hold `u128` amounts.
    pub proof fn lemma_ledgers_ok(&self)
        ensures
            ledger_ok(self.collateral@),
            ledger_ok(self.debt@),
            ledger_ok(self.user_accrued_interest@),
            ledger_ok(self.lender_balances@),
            ledger_ok(self.lender_interest_earned@),
    {
        lemma_map_of_bounded(self.collateral.entries@);
        lemma_map_of_bounded(self.debt.entries@);
        lemma_map_of_bounded(self.user_accrued_interest.entries@);
        lemma_map_of_bounded(self.lender_balances.entries@);
        lemma_map_of_bounded(self.lender_interest_earned.entries@);
    }

    /// A copy with the same entries in the same order.
    pub fn duplicate(&self) -> (r: LendingStorage)
        ensures
            r@ == self@,
            self.wf() ==> r.wf(),
    {
        let r = LendingStorage {
            vft_address: self.vft_address,
            collateral: self.collateral.duplicate(),
            tvara_price: self.tvara_price,
            debt: self.debt.duplicate(),
            lender_balances: self.lender_balances.duplicate(),
            lender_interest_earned: self.lender_interest_earned.duplicate(),
            total_liquidity: self.total_liquidity,
            treasury: self.treasury,
            paused: self.paused,
            reentrancy: self.reentrancy,
            admin: self.admin,
            last_accrual_ts: self.last_accrual_ts,
            total_interest_earned: self.total_interest_earned,
            user_accrued_interest: self.user_accrued_interest.duplicate(),
            total_principal_borrowed: self.total_principal_borrowed,
        };
        assert(r@ =~= self@);
        r
    }

    /// Utilization of the pool in WAD, counting accrued interest as borrowed.
    pub fn utilization_rate(&self) -> (r: Option<u128>)
        requires
            self.wf(),
        ensures
            match pool_utilization(self@) {
                Some(u) => r == Some(u as u128) && u <= WAD,
                None => r is None,
            },
    {
        let interest = match self.user_accrued_interest.checked_total() {
            Some(v) => v,
            None => return None,
        };
        let borrowed = match self.total_principal_borrowed.checked_add(interest) {
            Some(v) => v,
            None => return None,
        };
        utilization(borrowed, self.total_liquidity)
    }

    /// Settles interest up to `now`. On `false` an amount would have left `u128` and
    /// the record must be dropped.
    pub fn accrue_interest(&mut self, now: u64) -> (ok: bool)
        requires
            old(self).wf(),
            now >= old(self).last_accrual_ts,
        ensures
            match accrue_spec(old(self)@, now as nat) {
                Some(a) => ok && final(self)@ == a && final(self).wf(),
                None => !ok,
            },
    {
        let ghost m = self@;
        let dt = now - self.last_accrual_ts;
        if dt == 0 {
            return true;
        }
        let u = match self.utilization_rate() {
            Some(u) => u,
            None => return false,
        };
        let rate = borrow_rate(u);
        let generated = match interest_for(self.total_principal_borrowed, rate, dt as u128) {
            Some(v) => v,
            None => return false,
        };
        self.last_accrual_ts = now;
        if generated == 0 {
            return true;
        }
        proof {
            let x = self.total_principal_borrowed * rate * dt;
            assert(x / (SECONDS_PER_YEAR as int) / (WAD as int) <= x / (SECONDS_PER_YEAR as int))
                by (nonlinear_arith)
                requires
                    x >= 0,
            ;
            assert(x / (SECONDS_PER_YEAR as int) <= x / 1000) by (nonlinear_arith)
                requires
                    x >= 0,
            ;
        }
        let treasury_cut = generated * TREASURY_INTEREST_SHARE / 100;
        let lender_total = generated * LENDER_INTEREST_SHARE / 100;
        self.treasury = match self.treasury.checked_add(treasury_cut) {
            Some(v) => v,
            None => return false,
        };
        self.total_interest_earned = match self.total_interest_earned.checked_add(generated) {
            Some(v) => v,
            None => return false,
        };
        if self.total_liquidity > 0 && lender_total > 0 {
            if !credit_lenders_exec(
                &mut self.lender_interest_earned,
                &self.lender_balances,
                lender_total,
                self.total_liquidity,
            ) {
                return false;
            }
        }
        if !credit_borrowers_exec(&mut self.user_accrued_interest, &self.debt, rate, dt as u128) {
            return false;
        }
        proof {
            let a = self@;
            lemma_map_of_bounded(self.lender_interest_earned.entries@);
            lemma_map_of_bounded(self.user_accrued_interest.entries@);
            assert forall|k: AccountId| #[trigger] a.accrued.contains_key(k) implies a.accrued[k]
                > 0 && a.debt.contains_key(k) by {
                if !m.accrued.contains_key(k) {
                    assert(borrower_interest(m.debt, k, rate as int, dt as int) > 0);
                }
            }
        }
        true
    }
}

} // verus!
