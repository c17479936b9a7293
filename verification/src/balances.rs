//! The token ledger as the voting engine sees it: what each account owns and
//! how much of it the engine keeps frozen.

use crate::types::{AccountId, Balance, Error, FreezeReason};
use std::collections::HashMap;
use vstd::prelude::*;

verus! {

/// What a ledger holds: the accounts that own tokens and those with tokens
/// frozen, each with the amount. An account without an entry has none.
#[verifier::ext_equal]
pub struct Balances {
    pub total: Map<AccountId, Balance>,
    pub frozen: Map<AccountId, Balance>,
}

impl Balances {
    /// The tokens that `who` owns, frozen ones included.
    pub open spec fn total_of(self, who: AccountId) -> Balance {
        if self.total.contains_key(who) {
            self.total[who]
        } else {
            0
        }
    }

    /// The tokens of `who` that are frozen.
    pub open spec fn frozen_of(self, who: AccountId) -> Balance {
        if self.frozen.contains_key(who) {
            self.frozen[who]
        } else {
            0
        }
    }

    /// The ledger once the freeze of `who` is set to `amount`: the earlier
    /// freeze is dropped, whatever it was, and none is left where `amount`
    /// is 0.
    pub open spec fn with_freeze(self, who: AccountId, amount: Balance) -> Balances {
        if amount == 0 {
            self.thawed(who)
        } else {
            Balances { frozen: self.frozen.insert(who, amount), ..self }
        }
    }

    /// The ledger once the freeze of `who` is lifted.
    pub open spec fn thawed(self, who: AccountId) -> Balances {
        Balances { frozen: self.frozen.remove(who), ..self }
    }

    /// The ledger once `amount` new tokens are given to `who`.
    pub open spec fn minted(self, who: AccountId, amount: Balance) -> Balances {
        Balances { total: self.total.insert(who, (self.total_of(who) + amount) as Balance), ..self }
    }
}

/// A token ledger held in memory.
pub struct NativeBalance {
    accounts: HashMap<AccountId, Balance>,
    freezes: HashMap<AccountId, Balance>,
}

impl View for NativeBalance {
    type V = Balances;

    closed spec fn view(&self) -> Balances {
        Balances { total: self.accounts@, frozen: self.freezes@ }
    }
}

impl NativeBalance {
    /// A ledger in which nobody owns anything.
    pub fn new() -> (r: Self)
        ensures
            r@ == (Balances { total: Map::empty(), frozen: Map::empty() }),
    {
        NativeBalance { accounts: HashMap::new(), freezes: HashMap::new() }
    }

    /// The tokens that `who` owns, frozen ones included.
    pub fn total_balance(&self, who: AccountId) -> (r: Balance)
        ensures
            r == self@.total_of(who),
    {
        match self.accounts.get(&who) {
            Some(amount) => *amount,
            None => 0,
        }
    }

    /// The tokens of `who` that are frozen for `reason`.
    pub fn balance_frozen(&self, reason: FreezeReason, who: AccountId) -> (r: Balance)
        ensures
            r == self@.frozen_of(who),
    {
        match self.freezes.get(&who) {
            Some(amount) => *amount,
            None => 0,
        }
    }

    /// Gives `who` `amount` new tokens and returns what the account then
    /// owns. `Overflow`, and nothing changed, where that is no amount of
    /// tokens.
    pub fn mint_into(&mut self, who: AccountId, amount: Balance) -> (r: Result<Balance, Error>)
        ensures
            old(self)@.total_of(who) + amount <= Balance::MAX ==> r == Ok::<Balance, Error>(
                (old(self)@.total_of(who) + amount) as Balance,
            ) && final(self)@ == old(self)@.minted(who, amount),
            old(self)@.total_of(who) + amount > Balance::MAX ==> r == Err::<Balance, Error>(
                Error::Overflow,
            ) && final(self)@ == old(self)@,
    {
        match self.total_balance(who).checked_add(amount) {
            Some(sum) => {
                self.accounts.insert(who, sum);
                Ok(sum)
            },
            None => Err(Error::Overflow),
        }
    }

    /// Sets the freeze of `who` for `reason` to exactly `amount`, whatever it
    /// was before. Setting it to 0 lifts it.
    pub fn set_freeze(&mut self, reason: FreezeReason, who: AccountId, amount: Balance)
        ensures
            final(self)@ == old(self)@.with_freeze(who, amount),
    {
        if amount == 0 {
            self.freezes.remove(&who);
        } else {
            self.freezes.insert(who, amount);
        }
    }

    /// Lifts the freeze of `who` for `reason`.
    pub fn thaw(&mut self, reason: FreezeReason, who: AccountId)
        ensures
            final(self)@ == old(self)@.thawed(who),
    {
        self.freezes.remove(&who);
    }
}

} // verus!
