//! Delegated voting weight: what each account holds, and the total.

use vstd::prelude::*;

use crate::contract::{Contract, ContractView};
use crate::errors::DaoError;
use crate::sum::{amount, lemma_sum_bounds, lemma_sum_insert};
use crate::types::{TransferRequest, TransferRequestView, DELEGATION_ENTRY_BYTES};

verus! {

impl ContractView {
    /// The weight that an account holds: zero where it has no entry.
    pub open spec fn weight_of(self, account: Seq<char>) -> u128 {
        amount(self.delegations, account)
    }

    /// The ledger after `amount` was delegated to `account`.
    pub open spec fn delegated(self, account: Seq<char>, amount: u128) -> Self {
        ContractView {
            delegations: self.delegations.insert(
                account,
                (self.weight_of(account) + amount) as u128,
            ),
            total_delegation_amount: (self.total_delegation_amount + amount) as u128,
            ..self
        }
    }

    /// The ledger after the weight of `account` was reduced by `amount`; the
    /// total is left as it was.
    pub open spec fn reduced(self, account: Seq<char>, amount: u128) -> Self {
        ContractView {
            delegations: self.delegations.insert(
                account,
                (self.weight_of(account) - amount) as u128,
            ),
            ..self
        }
    }

    /// The ledger after `account` took `amount` of its weight back.
    pub open spec fn undelegated(self, account: Seq<char>, amount: u128) -> Self {
        ContractView {
            total_delegation_amount: (self.total_delegation_amount - amount) as u128,
            ..self.reduced(account, amount)
        }
    }

    /// The ledger after `account` was registered: its entry holds zero.
    pub open spec fn registered(self, account: Seq<char>) -> Self {
        ContractView { delegations: self.delegations.insert(account, 0), ..self }
    }
}

/// Delegating keeps the total equal to the sum of the weights, and no
/// account's weight outgrows the total.
pub proof fn lemma_delegated_balanced(c: ContractView, account: Seq<char>, amount: u128)
    requires
        c.balanced(),
        c.total_delegation_amount + amount <= u128::MAX,
    ensures
        c.weight_of(account) + amount <= u128::MAX,
        c.delegated(account, amount).balanced(),
{
    lemma_sum_bounds(c.delegations, account);
    lemma_sum_insert(c.delegations, account, (c.weight_of(account) + amount) as u128);
}

/// Taking weight back keeps the total equal to the sum of the weights, and
/// what an account can take back is within the total.
pub proof fn lemma_undelegated_balanced(c: ContractView, account: Seq<char>, amount: u128)
    requires
        c.balanced(),
        amount <= c.weight_of(account),
    ensures
        amount <= c.total_delegation_amount,
        c.undelegated(account, amount).balanced(),
{
    lemma_sum_bounds(c.delegations, account);
    lemma_sum_insert(c.delegations, account, (c.weight_of(account) - amount) as u128);
}

/// Registering an account that holds no weight keeps the ledger balanced.
pub proof fn lemma_registered_balanced(c: ContractView, account: Seq<char>)
    requires
        c.balanced(),
        c.weight_of(account) == 0,
    ensures
        c.registered(account).balanced(),
{
    lemma_sum_insert(c.delegations, account, 0);
}

/// One change of delegated weight.
pub enum DelegationStep {
    /// An amount is delegated to an account.
    Delegate { account: Seq<char>, amount: u128 },
    /// An account takes an amount of its weight back.
    Undelegate { account: Seq<char>, amount: u128 },
}

impl ContractView {
    /// The ledger after one change of delegated weight. A change that the
    /// ledger does not take leaves it as it was: a delegation that the total
    /// has no room for, or a withdrawal of more than the account holds.
    pub open spec fn after_step(self, step: DelegationStep) -> Self {
        match step {
            DelegationStep::Delegate { account, amount } => if self.total_delegation_amount
                + amount <= u128::MAX {
                self.delegated(account, amount)
            } else {
                self
            },
            DelegationStep::Undelegate { account, amount } => if amount <= self.weight_of(
                account,
            ) {
                self.undelegated(account, amount)
            } else {
                self
            },
        }
    }

    /// The ledger after a sequence of changes of delegated weight.
    pub open spec fn after_steps(self, steps: Seq<DelegationStep>) -> Self
        decreases steps.len(),
    {
        if steps.len() == 0 {
            self
        } else {
            self.after_steps(steps.drop_last()).after_step(steps.last())
        }
    }
}

/// Whatever is delegated and taken back, in whatever order, the total stays
/// the sum of what the accounts hold.
pub proof fn lemma_steps_keep_balance(c: ContractView, steps: Seq<DelegationStep>)
    requires
        c.balanced(),
    ensures
        c.after_steps(steps).balanced(),
    decreases steps.len(),
{
    if steps.len() > 0 {
        lemma_steps_keep_balance(c, steps.drop_last());
        let before = c.after_steps(steps.drop_last());
        match steps.last() {
            DelegationStep::Delegate { account, amount } => {
                if before.total_delegation_amount + amount <= u128::MAX {
                    lemma_delegated_balanced(before, account, amount);
                }
            },
            DelegationStep::Undelegate { account, amount } => {
                if amount <= before.weight_of(account) {
                    lemma_undelegated_balanced(before, account, amount);
                }
            },
        }
    }
}

impl Contract {
    /// Whether the total of delegated weight is the sum of what the accounts
    /// hold.
    pub fn is_balanced(&self) -> (b: bool)
        ensures
            b == self@.balanced(),
    {
        proof {
            self.delegations.lemma_finite();
        }
        match self.delegations.checked_sum() {
            Some(total) => total == self.total_delegation_amount,
            None => false,
        }
    }

    /// The weight that an account holds: zero where it has no entry.
    pub fn get_user_weight(&self, account_id: &String) -> (w: u128)
        ensures
            w == self@.weight_of(account_id@),
    {
        match self.delegations.get(account_id) {
            Some(w) => *w,
            None => 0,
        }
    }

    /// Adds `amount` to the weight of the account and to the total.
    pub fn internal_delegate(&mut self, account_id: &String, amount: u128)
        requires
            old(self)@.weight_of(account_id@) + amount <= u128::MAX,
            old(self)@.total_delegation_amount + amount <= u128::MAX,
        ensures
            final(self)@ == old(self)@.delegated(account_id@, amount),
            old(self)@.balanced() ==> final(self)@.balanced(),
    {
        proof {
            if self@.balanced() {
                lemma_delegated_balanced(self@, account_id@, amount);
            }
        }
        let prev_amount = self.get_user_weight(account_id);
        self.delegations.insert(account_id.clone(), prev_amount + amount);
        self.total_delegation_amount = self.total_delegation_amount + amount;
    }

    /// Takes `amount` off the weight of the account. The total is left as it
    /// was: this is one half of taking weight back.
    pub fn internal_reduce_delegation(&mut self, account_id: &String, amount: u128) -> (r: Result<
        (),
        DaoError,
    >)
        ensures
            match r {
                Ok(_) => amount <= old(self)@.weight_of(account_id@)
                    && final(self)@ == old(self)@.reduced(account_id@, amount),
                Err(e) => e == DaoError::InsufficientDelegation && amount > old(self)@.weight_of(
                    account_id@,
                ) && final(self)@ == old(self)@,
            },
    {
        let prev_amount = self.get_user_weight(account_id);
        if prev_amount < amount {
            return Err(DaoError::InsufficientDelegation);
        }
        self.delegations.insert(account_id.clone(), prev_amount - amount);
        Ok(())
    }

    /// Takes `amount` off the weight of the account and off the total.
    pub fn internal_undelegate(&mut self, account_id: &String, amount: u128) -> (r: Result<
        (),
        DaoError,
    >)
        requires
            old(self)@.balanced(),
        ensures
            final(self)@.balanced(),
            match r {
                Ok(_) => amount <= old(self)@.weight_of(account_id@)
                    && final(self)@ == old(self)@.undelegated(account_id@, amount),
                Err(e) => e == DaoError::InsufficientDelegation && amount > old(self)@.weight_of(
                    account_id@,
                ) && final(self)@ == old(self)@,
            },
    {
        proof {
            if amount <= self@.weight_of(account_id@) {
                lemma_undelegated_balanced(self@, account_id@, amount);
            }
        }
        match self.internal_reduce_delegation(account_id, amount) {
            Ok(_) => {
                self.total_delegation_amount = self.total_delegation_amount - amount;
                Ok(())
            },
            Err(e) => Err(e),
        }
    }

    /// Registers an account with the weight zero. Only the token contract
    /// may ask for it, and the deposit that comes with the call must pay for
    /// exactly one entry.
    pub fn register_delegation(
        &mut self,
        predecessor: &String,
        account_id: &String,
        attached_deposit: u128,
        storage_byte_cost: u128,
    ) -> (r: Result<(), DaoError>)
        ensures
            match r {
                Ok(_) => predecessor@ == old(self)@.token_account && attached_deposit
                    == DELEGATION_ENTRY_BYTES * storage_byte_cost
                    && final(self)@ == old(self)@.registered(account_id@),
                Err(e) => final(self)@ == old(self)@ && if predecessor@
                    != old(self)@.token_account {
                    e == DaoError::Forbidden
                } else {
                    e == DaoError::WrongAmount && attached_deposit != DELEGATION_ENTRY_BYTES
                        * storage_byte_cost
                },
            },
            old(self)@.balanced() && old(self)@.weight_of(account_id@) == 0
                ==> final(self)@.balanced(),
    {
        if *predecessor != self.token_account {
            return Err(DaoError::Forbidden);
        }
        let paid = match storage_byte_cost.checked_mul(DELEGATION_ENTRY_BYTES) {
            Some(price) => attached_deposit == price,
            None => false,
        };
        if !paid {
            return Err(DaoError::WrongAmount);
        }
        proof {
            if self@.balanced() && self@.weight_of(account_id@) == 0 {
                lemma_registered_balanced(self@, account_id@);
            }
        }
        self.delegations.insert(account_id.clone(), 0);
        Ok(())
    }

    /// Takes `amount` of the caller's weight back, and asks for the transfer
    /// of as many tokens to the caller.
    pub fn withdraw(&mut self, caller: &String, amount: u128) -> (r: Result<
        TransferRequest,
        DaoError,
    >)
        requires
            old(self)@.balanced(),
        ensures
            final(self)@.balanced(),
            match r {
                Ok(request) => amount <= old(self)@.weight_of(caller@)
                    && final(self)@ == old(self)@.undelegated(caller@, amount)
                    && request@ == (TransferRequestView {
                    token: old(self)@.token_account,
                    receiver_id: caller@,
                    amount,
                }),
                Err(e) => e == DaoError::InsufficientDelegation && amount > old(self)@.weight_of(
                    caller@,
                ) && final(self)@ == old(self)@,
            },
    {
        match self.internal_undelegate(caller, amount) {
            Ok(_) => Ok(
                TransferRequest {
                    token: self.token_account.clone(),
                    receiver_id: caller.clone(),
                    amount,
                },
            ),
            Err(e) => Err(e),
        }
    }
}

} // verus!
