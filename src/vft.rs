use vstd::prelude::*;

use crate::account::AccountId;
use crate::error::LendingError;
use crate::ledger::{amount_of, Ledger};
use crate::rates::fits;

verus! {

#[derive(Clone, Copy, Debug, PartialEq, Eq, Structural)]
pub struct Transfer {
    pub from: AccountId,
    pub to: AccountId,
    pub amount: u128,
}

/// A notification of the token ledger.
#[derive(Clone, Copy, Debug, PartialEq, Eq, Structural)]
pub enum VftEvent {
    Minted(AccountId, u128),
    Burned(AccountId, u128),
    Transferred(Transfer),
}

/// Balances after moving `amount` from `from` to `to`.
pub open spec fn transfer_spec(
    m: Map<AccountId, nat>,
    from: AccountId,
    to: AccountId,
    amount: nat,
) -> Result<Map<AccountId, nat>, LendingError> {
    let b = amount_of(m, from);
    if b < amount {
        Err(LendingError::InsufficientBalance)
    } else {
        let debited = m.insert(from, (b - amount) as nat);
        let credited = amount_of(debited, to) + amount;
        if !fits(credited) {
            Err(LendingError::Overflow)
        } else {
            Ok(debited.insert(to, credited as nat))
        }
    }
}

/// A minimal fungible-token ledger: the paired token's balances per account.
pub struct VftService {
    balances: Ledger,
}

impl View for VftService {
    type V = Map<AccountId, nat>;

    closed spec fn view(&self) -> Map<AccountId, nat> {
        self.balances@
    }
}

impl VftService {
    pub closed spec fn wf(&self) -> bool {
        self.balances.wf()
    }

    pub fn new() -> (r: VftService)
        ensures
            r.wf(),
            r@ == Map::<AccountId, nat>::empty(),
    {
        VftService { balances: Ledger::new() }
    }

    /// Creates `amount` tokens for `to`; the amount must be non-zero.
    pub fn mint(&mut self, to: AccountId, amount: u128) -> (r: Result<VftEvent, LendingError>)
        requires
            old(self).wf(),
        ensures
            final(self).wf(),
            amount == 0 ==> r == Err::<VftEvent, LendingError>(LendingError::ZeroAmount)
                && final(self)@ == old(self)@,
            amount > 0 && !fits(amount_of(old(self)@, to) + amount) ==> r == Err::<
                VftEvent,
                LendingError,
            >(LendingError::Overflow) && final(self)@ == old(self)@,
            amount > 0 && fits(amount_of(old(self)@, to) + amount) ==> r == Ok::<
                VftEvent,
                LendingError,
            >(VftEvent::Minted(to, amount)) && final(self)@ == old(self)@.insert(
                to,
                (amount_of(old(self)@, to) + amount) as nat,
            ),
    {
        if amount == 0 {
            return Err(LendingError::ZeroAmount);
        }
        let next = match self.balances.get(to).checked_add(amount) {
            Some(v) => v,
            None => return Err(LendingError::Overflow),
        };
        self.balances.set(to, next);
        Ok(VftEvent::Minted(to, amount))
    }

    /// Destroys `amount` of `from`'s tokens.
    pub fn burn(&mut self, from: AccountId, amount: u128) -> (r: Result<VftEvent, LendingError>)
        requires
            old(self).wf(),
        ensures
            final(self).wf(),
            amount_of(old(self)@, from) < amount ==> r == Err::<VftEvent, LendingError>(
                LendingError::InsufficientBalance,
            ) && final(self)@ == old(self)@,
            amount_of(old(self)@, from) >= amount ==> r == Ok::<VftEvent, LendingError>(
                VftEvent::Burned(from, amount),
            ) && final(self)@ == old(self)@.insert(
                from,
                (amount_of(old(self)@, from) - amount) as nat,
            ),
    {
        let balance = self.balances.get(from);
        if balance < amount {
            return Err(LendingError::InsufficientBalance);
        }
        self.balances.set(from, balance - amount);
        Ok(VftEvent::Burned(from, amount))
    }

    /// Moves `amount` of `from`'s tokens to `to`.
    pub fn transfer(&mut self, from: AccountId, to: AccountId, amount: u128) -> (r: Result<
        VftEvent,
        LendingError,
    >)
        requires
            old(self).wf(),
        ensures
            final(self).wf(),
            match transfer_spec(old(self)@, from, to, amount as nat) {
                Ok(m) => r == Ok::<VftEvent, LendingError>(
                    VftEvent::Transferred(Transfer { from, to, amount }),
                ) && final(self)@ == m,
                Err(e) => r == Err::<VftEvent, LendingError>(e) && final(self)@ == old(self)@,
            },
    {
        let balance = self.balances.get(from);
        if balance < amount {
            return Err(LendingError::InsufficientBalance);
        }
        let receiving = if to == from {
            balance - amount
        } else {
            self.balances.get(to)
        };
        let credited = match receiving.checked_add(amount) {
            Some(v) => v,
            None => return Err(LendingError::Overflow),
        };
        self.balances.set(from, balance - amount);
        self.balances.set(to, credited);
        Ok(VftEvent::Transferred(Transfer { from, to, amount }))
    }

    pub fn balance_of(&self, who: AccountId) -> (r: u128)
        requires
            self.wf(),
        ensures
            r == amount_of(self@, who),
    {
        self.balances.get(who)
    }
}

} // verus!
