//! What the ledger shows to its readers. Nothing here changes the ledger.

use vstd::prelude::*;
use vstd::std_specs::convert::FromSpecImpl;

use crate::bounty::{BountyView, VersionedBounty};
use crate::contract::{Contract, ContractView};
use crate::errors::DaoError;
use crate::leaderboard::{leaderboard, page_of, sorted_desc, window, ProposalDonateAsObject};
use crate::proposals::{
    ProposalKind, ProposalStatus, ProposalView, VersionedProposal, Vote, VoteOption,
    VoteOptionView, VoteView,
};
use crate::string_map::StringMap;
use crate::sum::amount;
use crate::types::DaoMetadata;

verus! {

broadcast use vstd::std_specs::hash::group_hash_axioms;

/// A proposal without the votes and donations of single accounts.
pub struct ProposalBaseInformation {
    pub proposer: String,
    pub description: String,
    pub kind: ProposalKind,
    pub status: ProposalStatus,
    pub options: StringMap<VoteOption>,
    pub submission_time: u64,
    pub duration: u64,
    pub total_donations: u128,
    pub total_delegation_amount: u128,
    pub option_delegations: StringMap<u128>,
}

/// `ProposalBaseInformation` as contracts see it.
pub struct ProposalBaseInformationView {
    pub proposer: Seq<char>,
    pub description: Seq<char>,
    pub kind: ProposalKind,
    pub status: ProposalStatus,
    pub options: Map<Seq<char>, VoteOptionView>,
    pub submission_time: u64,
    pub duration: u64,
    pub total_donations: u128,
    pub total_delegation_amount: u128,
    pub option_delegations: Map<Seq<char>, u128>,
}

impl View for ProposalBaseInformation {
    type V = ProposalBaseInformationView;

    open spec fn view(&self) -> ProposalBaseInformationView {
        ProposalBaseInformationView {
            proposer: self.proposer@,
            description: self.description@,
            kind: self.kind,
            status: self.status,
            options: self.options@,
            submission_time: self.submission_time,
            duration: self.duration,
            total_donations: self.total_donations,
            total_delegation_amount: self.total_delegation_amount,
            option_delegations: self.option_delegations@,
        }
    }
}

impl ProposalView {
    /// The proposal without the votes and donations of single accounts.
    pub open spec fn base_information(self) -> ProposalBaseInformationView {
        ProposalBaseInformationView {
            proposer: self.proposer,
            description: self.description,
            kind: self.kind,
            status: self.status,
            options: self.options,
            submission_time: self.submission_time,
            duration: self.duration,
            total_donations: self.total_donations,
            total_delegation_amount: self.total_delegation_amount,
            option_delegations: self.option_delegations,
        }
    }

    /// The vote that is shown for an account: its own, or a vote of no weight
    /// for the option `_` where it has none.
    pub open spec fn shown_vote(self, account: Seq<char>) -> VoteView {
        if self.votes.contains_key(account) {
            self.votes[account]
        } else {
            VoteView { option: "_"@, delegations: 0 }
        }
    }

    /// The proposal as it is shown to an account.
    pub open spec fn output(self, id: u64, account: Seq<char>) -> ProposalOutputView {
        ProposalOutputView {
            id,
            proposal: self.base_information(),
            user_select: self.shown_vote(account),
        }
    }
}

impl From<VersionedProposal> for ProposalBaseInformation {
    fn from(proposal: VersionedProposal) -> (info: ProposalBaseInformation) {
        let VersionedProposal::Default(p) = proposal;
        ProposalBaseInformation {
            proposer: p.proposer,
            description: p.description,
            kind: p.kind,
            status: p.status,
            options: p.options,
            submission_time: p.submission_time,
            duration: p.duration,
            total_donations: p.total_donations,
            total_delegation_amount: p.total_delegation_amount,
            option_delegations: p.option_delegations,
        }
    }
}

impl FromSpecImpl<VersionedProposal> for ProposalBaseInformation {
    open spec fn obeys_from_spec() -> bool {
        true
    }

    open spec fn from_spec(proposal: VersionedProposal) -> ProposalBaseInformation {
        let p = proposal->Default_0;
        ProposalBaseInformation {
            proposer: p.proposer,
            description: p.description,
            kind: p.kind,
            status: p.status,
            options: p.options,
            submission_time: p.submission_time,
            duration: p.duration,
            total_donations: p.total_donations,
            total_delegation_amount: p.total_delegation_amount,
            option_delegations: p.option_delegations,
        }
    }
}

/// A proposal as it is shown to an account.
pub struct ProposalOutput {
    pub id: u64,
    pub proposal: ProposalBaseInformation,
    /// The vote of the account that asked.
    pub user_select: Vote,
}

/// `ProposalOutput` as contracts see it.
pub struct ProposalOutputView {
    pub id: u64,
    pub proposal: ProposalBaseInformationView,
    pub user_select: VoteView,
}

impl View for ProposalOutput {
    type V = ProposalOutputView;

    open spec fn view(&self) -> ProposalOutputView {
        ProposalOutputView { id: self.id, proposal: self.proposal@, user_select: self.user_select@ }
    }
}

/// A bounty without the shares of its claimants.
pub struct BountyBaseInformation {
    pub description: String,
    pub token: String,
    pub total: u128,
    pub rest: u128,
    pub start_time: u64,
    pub duration: u64,
}

/// `BountyBaseInformation` as contracts see it.
pub struct BountyBaseInformationView {
    pub description: Seq<char>,
    pub token: Seq<char>,
    pub total: u128,
    pub rest: u128,
    pub start_time: u64,
    pub duration: u64,
}

impl View for BountyBaseInformation {
    type V = BountyBaseInformationView;

    open spec fn view(&self) -> BountyBaseInformationView {
        BountyBaseInformationView {
            description: self.description@,
            token: self.token@,
            total: self.total,
            rest: self.rest,
            start_time: self.start_time,
            duration: self.duration,
        }
    }
}

impl BountyView {
    /// The bounty without the shares of its claimants.
    pub open spec fn base_information(self) -> BountyBaseInformationView {
        BountyBaseInformationView {
            description: self.description,
            token: self.token,
            total: self.total,
            rest: self.rest,
            start_time: self.start_time,
            duration: self.duration,
        }
    }

    /// The bounty as it is shown to an account, or to nobody in particular.
    pub open spec fn output(self, id: u64, account: Option<Seq<char>>) -> BountyOutputView {
        BountyOutputView {
            id,
            claim_amount: match account {
                Some(a) => amount(self.claimer, a),
                None => 0,
            },
            bounty: self.base_information(),
        }
    }
}

impl From<VersionedBounty> for BountyBaseInformation {
    fn from(bounty: VersionedBounty) -> (info: BountyBaseInformation) {
        let VersionedBounty::Default(b) = bounty;
        BountyBaseInformation {
            description: b.description,
            token: b.token,
            total: b.total,
            rest: b.rest,
            start_time: b.start_time,
            duration: b.duration,
        }
    }
}

impl FromSpecImpl<VersionedBounty> for BountyBaseInformation {
    open spec fn obeys_from_spec() -> bool {
        true
    }

    open spec fn from_spec(bounty: VersionedBounty) -> BountyBaseInformation {
        let b = bounty->Default_0;
        BountyBaseInformation {
            description: b.description,
            token: b.token,
            total: b.total,
            rest: b.rest,
            start_time: b.start_time,
            duration: b.duration,
        }
    }
}

/// A bounty as it is shown to an account.
pub struct BountyOutput {
    pub id: u64,
    /// The share that the account that asked can still claim.
    pub claim_amount: u128,
    pub bounty: BountyBaseInformation,
}

/// `BountyOutput` as contracts see it.
pub struct BountyOutputView {
    pub id: u64,
    pub claim_amount: u128,
    pub bounty: BountyBaseInformationView,
}

impl View for BountyOutput {
    type V = BountyOutputView;

    open spec fn view(&self) -> BountyOutputView {
        BountyOutputView { id: self.id, claim_amount: self.claim_amount, bounty: self.bounty@ }
    }
}

/// Where a page that starts at `from_index` and holds up to `limit` ids
/// ends, when the ids in use are those below `last`.
pub open spec fn page_end(last: u64, from_index: u64, limit: u64) -> int {
    if from_index + limit < last {
        from_index + limit
    } else {
        last as int
    }
}

/// Where a page ends.
pub fn end_of_page(last: u64, from_index: u64, limit: u64) -> (end: u64)
    ensures
        end == page_end(last, from_index, limit),
{
    match from_index.checked_add(limit) {
        Some(e) => if e < last {
            e
        } else {
            last
        },
        None => last,
    }
}

impl ContractView {
    /// The proposals with ids from `from` up to, not including, `end`, in the
    /// order of their ids, as they are shown to `account`.
    pub open spec fn proposal_listing(self, from: int, end: int, account: Seq<char>) -> Seq<
        ProposalOutputView,
    >
        decreases end - from,
    {
        if from >= end {
            Seq::empty()
        } else {
            let before = self.proposal_listing(from, end - 1, account);
            let id = (end - 1) as u64;
            if self.proposals.contains_key(id) {
                before.push(self.proposals[id].output(id, account))
            } else {
                before
            }
        }
    }

    /// The bounties with ids from `from` up to, not including, `end`, in the
    /// order of their ids, as they are shown to `account`.
    pub open spec fn bounty_listing(self, from: int, end: int, account: Seq<char>) -> Seq<
        BountyOutputView,
    >
        decreases end - from,
    {
        if from >= end {
            Seq::empty()
        } else {
            let before = self.bounty_listing(from, end - 1, account);
            let id = (end - 1) as u64;
            if self.bounties.contains_key(id) {
                before.push(self.bounties[id].output(id, Some(account)))
            } else {
                before
            }
        }
    }
}

/// Where the ids are dense, a page of proposals holds every id of its range,
/// one after the other.
pub proof fn lemma_proposal_listing_dense(c: ContractView, from: int, end: int, account: Seq<char>)
    requires
        c.stores_wf(),
        0 <= from <= end <= c.last_proposal_id,
    ensures
        c.proposal_listing(from, end, account).len() == end - from,
        forall|k: int|
            0 <= k < end - from ==> #[trigger] c.proposal_listing(from, end, account)[k]
                == c.proposals[(from + k) as u64].output((from + k) as u64, account),
    decreases end - from,
{
    if from < end {
        lemma_proposal_listing_dense(c, from, end - 1, account);
        assert(c.proposals.contains_key((end - 1) as u64));
    }
}

/// Where the ids are dense, a page of bounties holds every id of its range,
/// one after the other.
pub proof fn lemma_bounty_listing_dense(c: ContractView, from: int, end: int, account: Seq<char>)
    requires
        c.stores_wf(),
        0 <= from <= end <= c.last_bounty_id,
    ensures
        c.bounty_listing(from, end, account).len() == end - from,
        forall|k: int|
            0 <= k < end - from ==> #[trigger] c.bounty_listing(from, end, account)[k]
                == c.bounties[(from + k) as u64].output((from + k) as u64, Some(account)),
    decreases end - from,
{
    if from < end {
        lemma_bounty_listing_dense(c, from, end - 1, account);
        assert(c.bounties.contains_key((end - 1) as u64));
    }
}

impl Contract {
    /// What the organization says of itself.
    pub fn get_metadata(&self) -> (m: DaoMetadata)
        ensures
            m@ == self@.dao_metadata,
    {
        self.dao_metadata.clone()
    }

    /// The owner of the organization.
    pub fn get_owner(&self) -> (owner: String)
        ensures
            owner@ == self@.owner_id,
    {
        self.owner_id.clone()
    }

    /// What the account has donated to the organization at large, if
    /// anything.
    pub fn get_donation_balance(&self, account_id: &String) -> (r: Option<u128>)
        ensures
            match r {
                Some(b) => self@.donations.contains_key(account_id@) && b
                    == self@.donations[account_id@],
                None => !self@.donations.contains_key(account_id@),
            },
    {
        match self.donations.get(account_id) {
            Some(b) => Some(*b),
            None => None,
        }
    }

    /// The token contract whose tokens are delegated and donated.
    pub fn token_account(self) -> (token: String)
        ensures
            token@ == self@.token_account,
    {
        self.token_account
    }

    /// The amount that is bound by the storage in use: its price per byte
    /// times the bytes used.
    pub fn get_locked_storage_amount(&self, storage_byte_cost: u128, storage_usage: u64) -> (locked:
        u128)
        requires
            storage_byte_cost * storage_usage <= u128::MAX,
        ensures
            locked == storage_byte_cost * storage_usage,
    {
        storage_byte_cost * (storage_usage as u128)
    }

    /// The part of `account_balance` that is free to spend: what is neither
    /// bound by storage nor locked.
    pub fn get_available_amount(
        &self,
        account_balance: u128,
        storage_byte_cost: u128,
        storage_usage: u64,
    ) -> (available: u128)
        requires
            storage_byte_cost * storage_usage + self@.locked_amount <= account_balance,
        ensures
            available == account_balance - storage_byte_cost * storage_usage
                - self@.locked_amount,
    {
        account_balance - self.get_locked_storage_amount(storage_byte_cost, storage_usage)
            - self.locked_amount
    }

    /// The sum of all delegated weight.
    pub fn delegation_total_supply(&self) -> (total: u128)
        ensures
            total == self@.total_delegation_amount,
    {
        self.total_delegation_amount
    }

    /// The weight that the account holds.
    pub fn delegation_balance_of(&self, account_id: &String) -> (w: u128)
        ensures
            w == self@.weight_of(account_id@),
    {
        self.get_user_weight(account_id)
    }

    /// The weight that the account holds, and the sum of all weight.
    pub fn delegation_balance_ratio(&self, account_id: &String) -> (r: (u128, u128))
        ensures
            r == (self@.weight_of(account_id@), self@.total_delegation_amount),
    {
        (self.delegation_balance_of(account_id), self.delegation_total_supply())
    }

    /// The id that the next proposal gets.
    pub fn get_last_proposal_id(&self) -> (id: u64)
        ensures
            id == self@.last_proposal_id,
    {
        self.last_proposal_id
    }

    /// The id that the next bounty gets.
    pub fn get_last_bounty_id(&self) -> (id: u64)
        ensures
            id == self@.last_bounty_id,
    {
        self.last_bounty_id
    }

    /// The proposal `id` as it is shown to the account.
    pub fn get_proposal(&self, id: u64, account_id: &String) -> (r: Option<ProposalOutput>)
        ensures
            match r {
                Some(o) => self@.proposals.contains_key(id) && o@ == self@.proposals[id].output(
                    id,
                    account_id@,
                ),
                None => !self@.proposals.contains_key(id),
            },
    {
        match self.proposals.get(&id) {
            None => None,
            Some(stored) => {
                let VersionedProposal::Default(proposal) = stored;
                let voted = match proposal.votes.get(account_id) {
                    Some(v) => v.clone(),
                    None => Vote { option: "_".to_owned(), delegations: 0 },
                };
                Some(
                    ProposalOutput {
                        id,
                        proposal: ProposalBaseInformation::from(stored.clone()),
                        user_select: voted,
                    },
                )
            },
        }
    }

    /// A page of proposals as they are shown to the account: those with ids
    /// from `from_index` on, up to `limit` ids, in the order of their ids.
    pub fn get_proposals(&self, from_index: u64, limit: u64, account_id: &String) -> (page: Vec<
        ProposalOutput,
    >)
        ensures
            page@.map_values(|o: ProposalOutput| o@) == self@.proposal_listing(
                from_index as int,
                page_end(self@.last_proposal_id, from_index, limit),
                account_id@,
            ),
    {
        let end = end_of_page(self.last_proposal_id, from_index, limit);
        let mut page: Vec<ProposalOutput> = Vec::new();
        if from_index >= end {
            assert(page@.map_values(|o: ProposalOutput| o@) == Seq::<ProposalOutputView>::empty());
            return page;
        }
        let mut id = from_index;
        assert(page@.map_values(|o: ProposalOutput| o@) == Seq::<ProposalOutputView>::empty());
        while id < end
            invariant
                from_index <= id <= end,
                page@.map_values(|o: ProposalOutput| o@) == self@.proposal_listing(
                    from_index as int,
                    id as int,
                    account_id@,
                ),
            decreases end - id,
        {
            let ghost before = page@;
            match self.get_proposal(id, account_id) {
                Some(o) => {
                    page.push(o);
                    assert(page@.map_values(|o: ProposalOutput| o@) == before.map_values(
                        |o: ProposalOutput| o@,
                    ).push(o@));
                },
                None => {},
            }
            id = id + 1;
        }
        page
    }

    /// The bounty `id` as it is shown to the account, or to nobody in
    /// particular.
    pub fn get_bounty(&self, id: u64, account_id: Option<String>) -> (r: Option<BountyOutput>)
        ensures
            match r {
                Some(o) => self@.bounties.contains_key(id) && o@ == self@.bounties[id].output(
                    id,
                    crate::types::opt_view(account_id),
                ),
                None => !self@.bounties.contains_key(id),
            },
    {
        match self.bounties.get(&id) {
            None => None,
            Some(stored) => {
                let VersionedBounty::Default(bounty) = stored;
                let claim_value: u128 = match account_id {
                    Some(account) => match bounty.claimer.get(&account) {
                        Some(share) => *share,
                        None => 0,
                    },
                    None => 0,
                };
                Some(
                    BountyOutput {
                        id,
                        claim_amount: claim_value,
                        bounty: BountyBaseInformation::from(stored.clone()),
                    },
                )
            },
        }
    }

    /// A page of bounties as they are shown to the account: those with ids
    /// from `from_index` on, up to `limit` ids, in the order of their ids.
    pub fn get_bounties(&self, from_index: u64, limit: u64, account_id: &String) -> (page: Vec<
        BountyOutput,
    >)
        ensures
            page@.map_values(|o: BountyOutput| o@) == self@.bounty_listing(
                from_index as int,
                page_end(self@.last_bounty_id, from_index, limit),
                account_id@,
            ),
    {
        let end = end_of_page(self.last_bounty_id, from_index, limit);
        let mut page: Vec<BountyOutput> = Vec::new();
        if from_index >= end {
            assert(page@.map_values(|o: BountyOutput| o@) == Seq::<BountyOutputView>::empty());
            return page;
        }
        let mut id = from_index;
        assert(page@.map_values(|o: BountyOutput| o@) == Seq::<BountyOutputView>::empty());
        while id < end
            invariant
                from_index <= id <= end,
                page@.map_values(|o: BountyOutput| o@) == self@.bounty_listing(
                    from_index as int,
                    id as int,
                    account_id@,
                ),
            decreases end - id,
        {
            let ghost before = page@;
            match self.get_bounty(id, Some(account_id.clone())) {
                Some(o) => {
                    page.push(o);
                    assert(page@.map_values(|o: BountyOutput| o@) == before.map_values(
                        |o: BountyOutput| o@,
                    ).push(o@));
                },
                None => {},
            }
            id = id + 1;
        }
        page
    }

    /// A page of the leaderboard of the proposal `id`: its donors in the
    /// order of what they gave last, largest first, donors of the same
    /// amount in the order of their first donation; up to `limit` lines from
    /// the position `from_index` on.
    pub fn get_proposal_donation(&self, id: u64, from_index: usize, limit: usize) -> (r: Result<
        Vec<ProposalDonateAsObject>,
        DaoError,
    >)
        ensures
            match r {
                Ok(page) => self@.proposals.contains_key(id) && page@.map_values(
                    |l: ProposalDonateAsObject| l@,
                ) == window(
                    sorted_desc(self.proposals@[id]->Default_0.donations.entries()),
                    from_index as int,
                    limit as int,
                ),
                Err(e) => e == DaoError::NotFound && !self@.proposals.contains_key(id),
            },
    {
        match self.proposals.get(&id) {
            None => Err(DaoError::NotFound),
            Some(stored) => {
                let VersionedProposal::Default(proposal) = stored;
                let lines = leaderboard(&proposal.donations);
                Ok(page_of(&lines, from_index, limit))
            },
        }
    }
}

} // verus!
