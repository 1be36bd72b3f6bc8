//! The ledger of one organization: its four stores and its counters.

use std::collections::HashMap;
use vstd::prelude::*;

use crate::bounty::{BountyInput, BountyView, VersionedBounty};
use crate::errors::DaoError;
use crate::proposals::{Proposal, ProposalView, VersionedProposal};
use crate::string_map::StringMap;
use crate::sum::{amount, sum};
use crate::types::{DaoMetadata, DaoMetadataView};

verus! {

broadcast use vstd::std_specs::hash::group_hash_axioms;

/// The whole state of the organization.
pub struct Contract {
    pub dao_metadata: DaoMetadata,
    /// Tokens that are earmarked and not free for the organization to spend.
    pub locked_amount: u128,
    /// The token contract whose tokens are delegated and donated.
    pub token_account: String,
    /// The sum of all delegated weight.
    pub total_delegation_amount: u128,
    /// The delegated weight of each account.
    pub delegations: StringMap<u128>,
    /// The id that the next proposal gets.
    pub last_proposal_id: u64,
    pub proposals: HashMap<u64, VersionedProposal>,
    /// What each account has donated to the organization at large.
    pub donations: StringMap<u128>,
    pub owner_id: String,
    /// The id that the next bounty gets.
    pub last_bounty_id: u64,
    pub bounties: HashMap<u64, VersionedBounty>,
}

/// The ledger as contracts see it.
pub struct ContractView {
    pub dao_metadata: DaoMetadataView,
    pub locked_amount: u128,
    pub token_account: Seq<char>,
    pub total_delegation_amount: u128,
    pub delegations: Map<Seq<char>, u128>,
    pub last_proposal_id: u64,
    pub proposals: Map<u64, ProposalView>,
    pub donations: Map<Seq<char>, u128>,
    pub owner_id: Seq<char>,
    pub last_bounty_id: u64,
    pub bounties: Map<u64, BountyView>,
}

impl View for Contract {
    type V = ContractView;

    open spec fn view(&self) -> ContractView {
        ContractView {
            dao_metadata: self.dao_metadata@,
            locked_amount: self.locked_amount,
            token_account: self.token_account@,
            total_delegation_amount: self.total_delegation_amount,
            delegations: self.delegations@,
            last_proposal_id: self.last_proposal_id,
            proposals: self.proposals@.map_values(|v: VersionedProposal| v@),
            donations: self.donations@,
            owner_id: self.owner_id@,
            last_bounty_id: self.last_bounty_id,
            bounties: self.bounties@.map_values(|v: VersionedBounty| v@),
        }
    }
}

impl ContractView {
    /// The total of delegated weight is the sum of what the accounts hold.
    pub open spec fn balanced(self) -> bool {
        &&& self.delegations.dom().finite()
        &&& self.total_delegation_amount == sum(self.delegations)
    }

    /// The ids of the proposals and of the bounties are dense: every id
    /// below the counter is in its store and no other. Every proposal has
    /// its tallies in agreement with its votes.
    pub open spec fn stores_wf(self) -> bool {
        &&& forall|id: u64| #[trigger]
            self.proposals.contains_key(id) <==> id < self.last_proposal_id
        &&& forall|id: u64| #[trigger] self.bounties.contains_key(id) <==> id < self.last_bounty_id
        &&& forall|id: u64| #[trigger] self.proposals.contains_key(id) ==> self.proposals[id].wf()
    }

    /// The ledger is balanced and its stores are well formed.
    pub open spec fn wf(self) -> bool {
        self.balanced() && self.stores_wf()
    }

    /// The ledger of an organization that has just been set up.
    pub open spec fn fresh(
        dao_metadata: DaoMetadataView,
        token_account: Seq<char>,
        owner_id: Seq<char>,
    ) -> ContractView {
        ContractView {
            dao_metadata,
            locked_amount: 0,
            token_account,
            total_delegation_amount: 0,
            delegations: Map::empty(),
            last_proposal_id: 0,
            proposals: Map::empty(),
            donations: Map::empty(),
            owner_id,
            last_bounty_id: 0,
            bounties: Map::empty(),
        }
    }
}

impl Contract {
    /// Sets up the ledger of an organization: no delegations, no proposals,
    /// no donations, no bounties.
    pub fn new(metadata: DaoMetadata, token_contract_id: String, owner_id: String) -> (c: Self)
        ensures
            c@ == ContractView::fresh(metadata@, token_contract_id@, owner_id@),
            c@.wf(),
    {
        let c = Contract {
            dao_metadata: metadata,
            locked_amount: 0,
            token_account: token_contract_id,
            total_delegation_amount: 0,
            delegations: StringMap::new(),
            last_proposal_id: 0,
            proposals: HashMap::new(),
            donations: StringMap::new(),
            owner_id,
            last_bounty_id: 0,
            bounties: HashMap::new(),
        };
        assert(c@.proposals == Map::<u64, ProposalView>::empty());
        assert(c@.bounties == Map::<u64, BountyView>::empty());
        c
    }
}

/// What the sender of a token transfer wants done with the tokens.
pub enum TransferPurpose {
    /// Delegate them to the named account.
    Delegate(String),
    /// Donate them to the organization at large.
    OpenDonate,
    /// Donate them to the proposal with the given id.
    ProposalDonate(u64),
    /// Back a new bounty with them.
    CreateBounty(BountyInput),
}

/// The payload of a transfer notification, decoded.
pub struct TransferArgs {
    pub purpose: TransferPurpose,
}

impl ContractView {
    /// The ledger after a transfer of `amount` was delegated to `target`: the
    /// weight is recorded and the tokens are counted as locked.
    pub open spec fn delegation_received(self, target: Seq<char>, amount: u128) -> Self {
        ContractView {
            locked_amount: (self.locked_amount + amount) as u128,
            ..self.delegated(target, amount)
        }
    }

    /// Why a donation to the proposal `id` is turned down, if it is.
    pub open spec fn proposal_donate_error(self, id: u64) -> Option<DaoError> {
        if !self.proposals.contains_key(id) {
            Some(DaoError::NotFound)
        } else if !(self.proposals[id].kind is Donate) {
            Some(DaoError::WrongProposalKind)
        } else {
            None
        }
    }

    /// The ledger after `sender` donated `amount` to the proposal `id`.
    pub open spec fn proposal_donated(self, id: u64, sender: Seq<char>, amount: u128) -> Self {
        ContractView {
            proposals: self.proposals.insert(id, self.proposals[id].with_donation(sender, amount)),
            ..self
        }
    }

    /// Why a request to back a bounty with a transfer is turned down, if it
    /// is. The shares are held against the amount before the bounty is made.
    pub open spec fn bounty_transfer_error(
        self,
        predecessor: Seq<char>,
        sender: Seq<char>,
        amount: u128,
        token: Seq<char>,
        duration: u64,
        claimer: Map<Seq<char>, u128>,
    ) -> Option<DaoError> {
        if predecessor != token {
            Some(DaoError::Forbidden)
        } else if sender != self.owner_id {
            Some(DaoError::Forbidden)
        } else if sum(claimer) != amount {
            Some(DaoError::AmountMismatch)
        } else if duration <= crate::types::MIN_DURATION {
            Some(DaoError::DurationTooShort)
        } else {
            None
        }
    }

    /// Whether the ledger has room for what the transfer asks for: no amount
    /// and no counter would pass what its type holds.
    pub open spec fn has_room_for(self, sender: Seq<char>, amount: u128, purpose: TransferPurpose)
        -> bool {
        match purpose {
            TransferPurpose::Delegate(target) => {
                &&& self.weight_of(target@) + amount <= u128::MAX
                &&& self.total_delegation_amount + amount <= u128::MAX
                &&& self.locked_amount + amount <= u128::MAX
            },
            TransferPurpose::OpenDonate => crate::sum::amount(self.donations, sender) + amount
                <= u128::MAX,
            TransferPurpose::ProposalDonate(id) => self.proposals.contains_key(id)
                ==> self.proposals[id].total_donations + amount <= u128::MAX,
            TransferPurpose::CreateBounty(_) => self.last_bounty_id < u64::MAX,
        }
    }
}

impl Contract {
    /// Whether the ledger has room for what the transfer asks for.
    pub fn transfer_fits(&self, sender_id: &String, amount: u128, purpose: &TransferPurpose) -> (b:
        bool)
        ensures
            b == self@.has_room_for(sender_id@, amount, *purpose),
    {
        match purpose {
            TransferPurpose::Delegate(target) => {
                self.get_user_weight(target).checked_add(amount).is_some()
                    && self.total_delegation_amount.checked_add(amount).is_some()
                    && self.locked_amount.checked_add(amount).is_some()
            },
            TransferPurpose::OpenDonate => {
                let given: u128 = match self.donations.get(sender_id) {
                    Some(a) => *a,
                    None => 0,
                };
                given.checked_add(amount).is_some()
            },
            TransferPurpose::ProposalDonate(id) => match self.proposals.get(id) {
                Some(VersionedProposal::Default(p)) => p.total_donations.checked_add(
                    amount,
                ).is_some(),
                None => true,
            },
            TransferPurpose::CreateBounty(_) => self.last_bounty_id < u64::MAX,
        }
    }

    /// Takes a notification that `sender_id` has transferred `amount` tokens
    /// to the organization, sent by the contract `predecessor`, and does with
    /// them what the decoded payload asks for; `None` stands for a payload
    /// that could not be decoded. Returns the number of tokens to hand back,
    /// which is zero: all of them are used.
    pub fn ft_on_transfer(
        &mut self,
        predecessor: &String,
        sender_id: &String,
        amount: u128,
        args: Option<TransferArgs>,
    ) -> (r: Result<u128, DaoError>)
        requires
            args matches Some(a) ==> old(self)@.has_room_for(sender_id@, amount, a.purpose),
        ensures
            r matches Ok(unused) ==> unused == 0,
            r is Err ==> final(self)@ == old(self)@,
            old(self)@.stores_wf() ==> final(self)@.stores_wf(),
            old(self)@.balanced() ==> final(self)@.balanced(),
            match args {
                None => r == Err::<u128, DaoError>(DaoError::MalformedPayload),
                Some(TransferArgs { purpose: TransferPurpose::Delegate(target) }) => if predecessor@
                    != old(self)@.token_account {
                    r == Err::<u128, DaoError>(DaoError::Forbidden)
                } else {
                    r is Ok && final(self)@ == old(self)@.delegation_received(target@, amount)
                },
                Some(TransferArgs { purpose: TransferPurpose::OpenDonate }) => if predecessor@
                    != old(self)@.token_account {
                    r == Err::<u128, DaoError>(DaoError::Forbidden)
                } else {
                    r is Ok && final(self)@ == old(self)@.donated(sender_id@, amount)
                },
                Some(TransferArgs { purpose: TransferPurpose::ProposalDonate(id) }) => if
                    predecessor@ != old(self)@.token_account {
                    r == Err::<u128, DaoError>(DaoError::Forbidden)
                } else {
                    match old(self)@.proposal_donate_error(id) {
                        Some(e) => r == Err::<u128, DaoError>(e),
                        None => r is Ok && final(self)@ == old(self)@.proposal_donated(
                            id,
                            sender_id@,
                            amount,
                        ),
                    }
                },
                Some(TransferArgs { purpose: TransferPurpose::CreateBounty(input) }) => match
                    old(self)@.bounty_transfer_error(
                    predecessor@,
                    sender_id@,
                    amount,
                    input.token@,
                    input.duration,
                    input.claimer@,
                ) {
                    Some(e) => r == Err::<u128, DaoError>(e),
                    None => r is Ok && final(self)@ == old(self)@.with_new_bounty(
                        BountyView::funded(
                            input.description@,
                            input.token@,
                            input.start_time,
                            input.duration,
                            input.claimer@,
                            amount,
                        ),
                    ),
                },
            },
    {
        let purpose = match args {
            Some(a) => a.purpose,
            None => {
                return Err(DaoError::MalformedPayload);
            },
        };
        match purpose {
            TransferPurpose::Delegate(delegate) => {
                if *predecessor != self.token_account {
                    return Err(DaoError::Forbidden);
                }
                self.internal_delegate(&delegate, amount);
                self.locked_amount = self.locked_amount + amount;
            },
            TransferPurpose::OpenDonate => {
                if *predecessor != self.token_account {
                    return Err(DaoError::Forbidden);
                }
                self.open_donate(sender_id, amount);
            },
            TransferPurpose::ProposalDonate(proposal_id) => {
                if *predecessor != self.token_account {
                    return Err(DaoError::Forbidden);
                }
                let is_donation = match self.proposals.get(&proposal_id) {
                    None => {
                        return Err(DaoError::NotFound);
                    },
                    Some(VersionedProposal::Default(p)) => match p.kind {
                        crate::proposals::ProposalKind::Donate => true,
                        crate::proposals::ProposalKind::Vote { .. } => false,
                    },
                };
                if !is_donation {
                    return Err(DaoError::WrongProposalKind);
                }
                let stored = match self.proposals.remove(&proposal_id) {
                    Some(v) => v,
                    None => {
                        return Err(DaoError::NotFound);
                    },
                };
                let mut proposal: Proposal = match stored {
                    VersionedProposal::Default(p) => p,
                };
                proposal.donate(sender_id, amount);
                self.proposals.insert(proposal_id, VersionedProposal::Default(proposal));
                assert(self@.proposals == old(self)@.proposals.insert(proposal_id, proposal@));
            },
            TransferPurpose::CreateBounty(bounty_input) => {
                if *predecessor != bounty_input.token {
                    return Err(DaoError::Forbidden);
                }
                if *sender_id != self.owner_id {
                    return Err(DaoError::Forbidden);
                }
                let backed = match bounty_input.claimer.checked_sum() {
                    Some(total) => total == amount,
                    None => false,
                };
                if !backed {
                    return Err(DaoError::AmountMismatch);
                }
                match self.create_bounty(sender_id, bounty_input, amount) {
                    Ok(_) => {},
                    Err(e) => {
                        return Err(e);
                    },
                }
            },
        }
        Ok(0)
    }
}

} // verus!
