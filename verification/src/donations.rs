//! Donations to the organization at large.

use vstd::prelude::*;

use crate::contract::{Contract, ContractView};

verus! {

impl ContractView {
    /// The ledger after `account` donated `amount`: the donations of an
    /// account add up.
    pub open spec fn donated(self, account: Seq<char>, amount: u128) -> Self {
        ContractView {
            donations: self.donations.insert(
                account,
                (crate::sum::amount(self.donations, account) + amount) as u128,
            ),
            ..self
        }
    }
}

impl Contract {
    /// Adds `amount` to what the account has donated.
    pub fn open_donate(&mut self, account_id: &String, amount: u128)
        requires
            crate::sum::amount(old(self)@.donations, account_id@) + amount <= u128::MAX,
        ensures
            final(self)@ == old(self)@.donated(account_id@, amount),
    {
        let prev_amount: u128 = match self.donations.get(account_id) {
            Some(a) => *a,
            None => 0,
        };
        self.donations.insert(account_id.clone(), prev_amount + amount);
    }
}

} // verus!
