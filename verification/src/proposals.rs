//! Proposals and the votes and donations that they collect.

use vstd::prelude::*;
use vstd::std_specs::convert::FromSpec;
use vstd::std_specs::convert::FromSpecImpl;

use crate::contract::{Contract, ContractView};
use crate::errors::DaoError;
use crate::string_map::StringMap;
use crate::sum::{amount, lemma_sum_bounds, lemma_sum_insert, lemma_sum_remove, sum};
use crate::types::{before_end, window_end, Action, MIN_DURATION};

verus! {

broadcast use vstd::std_specs::hash::group_hash_axioms;

/// Where a proposal stands.
#[derive(Clone, Copy, Debug, PartialEq, Eq, Structural)]
pub enum ProposalStatus {
    InProgress,
    Expired,
}

/// How the votes on a proposal are weighed.
#[derive(Clone, Copy, Debug, PartialEq, Eq, Structural)]
pub enum VoteKind {
    /// A vote weighs what its voter has delegated when it is cast.
    VoteByDelegation,
    /// Every vote weighs one.
    MajorityVote,
}

/// What a proposal is for.
#[derive(Clone, Copy, Debug, PartialEq, Eq, Structural)]
pub enum ProposalKind {
    /// It collects donations and takes no votes.
    Donate,
    /// It is a poll over named options.
    Vote { vote_kind: VoteKind },
}

impl ProposalKind {
    /// The label of the policy that governs this kind of proposal.
    pub fn to_policy_label(&self) -> (label: &'static str)
        ensures
            label@ == match *self {
                ProposalKind::Donate => "donate"@,
                ProposalKind::Vote { .. } => "vote"@,
            },
    {
        match self {
            ProposalKind::Donate => "donate",
            ProposalKind::Vote { .. } => "vote",
        }
    }
}

/// One of the options of a poll.
#[derive(Debug)]
pub struct VoteOption {
    pub title: String,
    pub description: String,
    pub min_vote_weight: u128,
}

/// `VoteOption` as contracts see it.
pub struct VoteOptionView {
    pub title: Seq<char>,
    pub description: Seq<char>,
    pub min_vote_weight: u128,
}

impl View for VoteOption {
    type V = VoteOptionView;

    open spec fn view(&self) -> VoteOptionView {
        VoteOptionView {
            title: self.title@,
            description: self.description@,
            min_vote_weight: self.min_vote_weight,
        }
    }
}

impl Clone for VoteOption {
    fn clone(&self) -> (r: Self)
        ensures
            r@ == self@,
    {
        VoteOption {
            title: self.title.clone(),
            description: self.description.clone(),
            min_vote_weight: self.min_vote_weight,
        }
    }
}

/// The vote of one account: the option it chose and the weight that was
/// recorded when it was cast.
#[derive(Debug)]
pub struct Vote {
    pub option: String,
    pub delegations: u128,
}

/// `Vote` as contracts see it.
pub struct VoteView {
    pub option: Seq<char>,
    pub delegations: u128,
}

impl View for Vote {
    type V = VoteView;

    open spec fn view(&self) -> VoteView {
        VoteView { option: self.option@, delegations: self.delegations }
    }
}

impl Clone for Vote {
    fn clone(&self) -> (r: Self)
        ensures
            r@ == self@,
    {
        Vote { option: self.option.clone(), delegations: self.delegations }
    }
}

/// The weight that is recorded for a vote.
pub open spec fn effective_weight(kind: VoteKind, delegation: u128) -> u128 {
    match kind {
        VoteKind::VoteByDelegation => delegation,
        VoteKind::MajorityVote => 1,
    }
}

/// The recorded weight of every vote, by voter.
pub open spec fn weights(votes: Map<Seq<char>, VoteView>) -> Map<Seq<char>, u128> {
    votes.map_values(|v: VoteView| v.delegations)
}

/// The recorded weights of the votes for one option, by voter.
pub open spec fn weights_for(votes: Map<Seq<char>, VoteView>, option: Seq<char>) -> Map<
    Seq<char>,
    u128,
> {
    Map::new(
        |a: Seq<char>| votes.contains_key(a) && votes[a].option == option,
        |a: Seq<char>| votes[a].delegations,
    )
}

/// A proposal as contracts see it.
pub struct ProposalView {
    pub proposer: Seq<char>,
    pub description: Seq<char>,
    pub kind: ProposalKind,
    pub status: ProposalStatus,
    pub options: Map<Seq<char>, VoteOptionView>,
    pub submission_time: u64,
    pub duration: u64,
    pub donations: Map<Seq<char>, u128>,
    pub total_donations: u128,
    pub total_delegation_amount: u128,
    pub votes: Map<Seq<char>, VoteView>,
    pub option_delegations: Map<Seq<char>, u128>,
}

impl ProposalView {
    /// The tallies agree with the votes: the total is the sum of the recorded
    /// weights and the sum of the option tallies, each option's tally is the
    /// sum of the weights of the votes for it, and every vote and every tally
    /// is for one of the proposal's options. A proposal that collects
    /// donations has no options, and so neither votes nor tallies.
    pub open spec fn wf(self) -> bool {
        &&& self.options.dom().finite()
        &&& self.votes.dom().finite()
        &&& self.option_delegations.dom().finite()
        &&& self.donations.dom().finite()
        &&& self.total_delegation_amount == sum(weights(self.votes))
        &&& self.total_delegation_amount == sum(self.option_delegations)
        &&& forall|o: Seq<char>|
            amount(self.option_delegations, o) == sum(#[trigger] weights_for(self.votes, o))
        &&& forall|a: Seq<char>| #[trigger]
            self.votes.contains_key(a) ==> self.options.contains_key(self.votes[a].option)
        &&& forall|o: Seq<char>| #[trigger]
            self.option_delegations.contains_key(o) ==> self.options.contains_key(o)
        &&& self.kind is Donate ==> self.options.dom() == Set::<Seq<char>>::empty()
    }

    /// Whether the voting window is closed at `now`.
    pub open spec fn expired_at(self, now: u64) -> bool {
        now >= window_end(self.submission_time, self.duration)
    }

    /// The proposal with one more vote.
    pub open spec fn with_vote(self, account: Seq<char>, option: Seq<char>, weight: u128) -> Self {
        ProposalView {
            votes: self.votes.insert(account, VoteView { option, delegations: weight }),
            total_delegation_amount: (self.total_delegation_amount + weight) as u128,
            option_delegations: self.option_delegations.insert(
                option,
                (amount(self.option_delegations, option) + weight) as u128,
            ),
            ..self
        }
    }

    /// The proposal with the vote of `account` withdrawn.
    pub open spec fn without_vote(self, account: Seq<char>) -> Self {
        let vote = self.votes[account];
        ProposalView {
            votes: self.votes.remove(account),
            total_delegation_amount: (self.total_delegation_amount - vote.delegations) as u128,
            option_delegations: self.option_delegations.insert(
                vote.option,
                (amount(self.option_delegations, vote.option) - vote.delegations) as u128,
            ),
            ..self
        }
    }

    /// The proposal after `account` has voted for `option` with `weight`:
    /// an earlier vote of the account is withdrawn first.
    pub open spec fn revoted(self, account: Seq<char>, option: Seq<char>, weight: u128) -> Self {
        if self.votes.contains_key(account) {
            self.without_vote(account).with_vote(account, option, weight)
        } else {
            self.with_vote(account, option, weight)
        }
    }

    /// The weight that `account` has on the proposal, zero without a vote.
    pub open spec fn weight_of(self, account: Seq<char>) -> u128 {
        if self.votes.contains_key(account) {
            self.votes[account].delegations
        } else {
            0
        }
    }

    /// The proposal after a donation: the donor's entry holds the new amount
    /// alone, the total grows by it.
    pub open spec fn with_donation(self, account: Seq<char>, amount: u128) -> Self {
        ProposalView {
            donations: self.donations.insert(account, amount),
            total_donations: (self.total_donations + amount) as u128,
            ..self
        }
    }
}

/// The votes for an option are among all votes, so there are finitely many.
pub proof fn lemma_weights_for_finite(votes: Map<Seq<char>, VoteView>, option: Seq<char>)
    requires
        votes.dom().finite(),
    ensures
        weights_for(votes, option).dom().finite(),
        weights(votes).dom().finite(),
{
    assert(weights_for(votes, option).dom().subset_of(votes.dom()));
    vstd::set_lib::lemma_set_subset_finite(votes.dom(), weights_for(votes, option).dom());
    assert(weights(votes).dom() == votes.dom());
}

/// A vote of an account that has none keeps the tallies in agreement, and no
/// tally outgrows the total.
pub proof fn lemma_with_vote(p: ProposalView, account: Seq<char>, option: Seq<char>, weight: u128)
    requires
        p.wf(),
        !p.votes.contains_key(account),
        p.options.contains_key(option),
        p.total_delegation_amount + weight <= u128::MAX,
    ensures
        p.with_vote(account, option, weight).wf(),
        amount(p.option_delegations, option) + weight <= u128::MAX,
{
    let q = p.with_vote(account, option, weight);
    lemma_weights_for_finite(p.votes, option);
    lemma_sum_bounds(p.option_delegations, option);
    assert(weights(q.votes) == weights(p.votes).insert(account, weight));
    lemma_sum_insert(weights(p.votes), account, weight);
    let tally = (amount(p.option_delegations, option) + weight) as u128;
    lemma_sum_insert(p.option_delegations, option, tally);
    assert forall|o: Seq<char>|
        amount(q.option_delegations, o) == sum(#[trigger] weights_for(q.votes, o)) by {
        lemma_weights_for_finite(p.votes, o);
        assert(amount(p.option_delegations, o) == sum(weights_for(p.votes, o)));
        if o == option {
            assert(weights_for(q.votes, o) == weights_for(p.votes, o).insert(account, weight));
            lemma_sum_insert(weights_for(p.votes, o), account, weight);
        } else {
            assert(weights_for(q.votes, o) == weights_for(p.votes, o));
        }
    }
}

/// Withdrawing a vote keeps the tallies in agreement, and the weight that
/// leaves is within the total and within the tally of its option.
pub proof fn lemma_without_vote(p: ProposalView, account: Seq<char>)
    requires
        p.wf(),
        p.votes.contains_key(account),
    ensures
        p.without_vote(account).wf(),
        p.votes[account].delegations <= p.total_delegation_amount,
        p.votes[account].delegations <= amount(p.option_delegations, p.votes[account].option),
        p.without_vote(account).total_delegation_amount + p.votes[account].delegations
            == p.total_delegation_amount,
{
    let q = p.without_vote(account);
    let vote = p.votes[account];
    lemma_weights_for_finite(p.votes, vote.option);
    assert(weights(q.votes) == weights(p.votes).remove(account));
    lemma_sum_remove(weights(p.votes), account);
    assert(amount(p.option_delegations, vote.option) == sum(weights_for(p.votes, vote.option)));
    lemma_sum_remove(weights_for(p.votes, vote.option), account);
    let tally = (amount(p.option_delegations, vote.option) - vote.delegations) as u128;
    lemma_sum_insert(p.option_delegations, vote.option, tally);
    assert forall|o: Seq<char>|
        amount(q.option_delegations, o) == sum(#[trigger] weights_for(q.votes, o)) by {
        assert(amount(p.option_delegations, o) == sum(weights_for(p.votes, o)));
        if o == vote.option {
            assert(weights_for(q.votes, o) == weights_for(p.votes, o).remove(account));
        } else {
            assert(weights_for(q.votes, o) == weights_for(p.votes, o));
        }
    }
    assert(p.options.contains_key(vote.option));
}

/// A proposal that was put to the organization.
pub struct Proposal {
    /// The account that made the proposal.
    pub proposer: String,
    pub description: String,
    pub kind: ProposalKind,
    pub status: ProposalStatus,
    /// The options of a poll, by name; empty where the proposal collects
    /// donations.
    pub options: StringMap<VoteOption>,
    /// When the proposal was made; the voting window opens here.
    pub submission_time: u64,
    /// How long the voting window stays open.
    pub duration: u64,
    /// What each donor gave last.
    pub donations: StringMap<u128>,
    /// All that was ever donated.
    pub total_donations: u128,
    /// The sum of the recorded weights of all votes.
    pub total_delegation_amount: u128,
    /// The vote of each account that voted.
    pub votes: StringMap<Vote>,
    /// The tally of each option.
    pub option_delegations: StringMap<u128>,
}

impl View for Proposal {
    type V = ProposalView;

    open spec fn view(&self) -> ProposalView {
        ProposalView {
            proposer: self.proposer@,
            description: self.description@,
            kind: self.kind,
            status: self.status,
            options: self.options@,
            submission_time: self.submission_time,
            duration: self.duration,
            donations: self.donations@,
            total_donations: self.total_donations,
            total_delegation_amount: self.total_delegation_amount,
            votes: self.votes@,
            option_delegations: self.option_delegations@,
        }
    }
}

impl Proposal {
    /// The vote of the account, if it has one.
    pub fn get_user_voted(&self, account_id: &String) -> (r: Option<&Vote>)
        ensures
            match r {
                Some(v) => self@.votes.contains_key(account_id@) && v@ == self@.votes[account_id@],
                None => !self@.votes.contains_key(account_id@),
            },
    {
        self.votes.get(account_id)
    }

    /// Records the vote of an account that has none yet. The weight recorded
    /// is the delegation handed in, or one under `MajorityVote`.
    pub fn add_vote(
        &mut self,
        account_id: &String,
        option_id: &String,
        vote_delegation: u128,
        kind: &VoteKind,
    ) -> (r: Result<(), DaoError>)
        requires
            old(self)@.wf(),
            old(self)@.options.contains_key(option_id@) && !old(self)@.votes.contains_key(
                account_id@,
            ) ==> old(self)@.total_delegation_amount + effective_weight(*kind, vote_delegation)
                <= u128::MAX,
        ensures
            final(self)@.wf(),
            !old(self)@.options.contains_key(option_id@) ==> r == Err::<(), DaoError>(
                DaoError::InvalidOption,
            ) && final(self)@ == old(self)@,
            old(self)@.options.contains_key(option_id@) && old(self)@.votes.contains_key(
                account_id@,
            ) ==> r == Err::<(), DaoError>(DaoError::AlreadyVoted) && final(self)@ == old(self)@,
            old(self)@.options.contains_key(option_id@) && !old(self)@.votes.contains_key(
                account_id@,
            ) ==> r == Ok::<(), DaoError>(()) && final(self)@ == old(self)@.with_vote(
                account_id@,
                option_id@,
                effective_weight(*kind, vote_delegation),
            ),
    {
        if !self.options.contains_key(option_id) {
            return Err(DaoError::InvalidOption);
        }
        if self.votes.contains_key(account_id) {
            return Err(DaoError::AlreadyVoted);
        }
        let weight: u128 = match kind {
            VoteKind::VoteByDelegation => vote_delegation,
            VoteKind::MajorityVote => 1,
        };
        proof {
            lemma_with_vote(self@, account_id@, option_id@, weight);
        }
        let tally: u128 = match self.option_delegations.get(option_id) {
            Some(t) => *t,
            None => 0,
        };
        let vote = Vote { option: option_id.clone(), delegations: weight };
        self.votes.insert(account_id.clone(), vote);
        self.total_delegation_amount = self.total_delegation_amount + weight;
        self.option_delegations.insert(option_id.clone(), tally + weight);
        Ok(())
    }

    /// Withdraws the vote of an account: the weight that was recorded with
    /// the vote leaves the tally of its option and the total, whichever
    /// `kind` is handed in.
    pub fn remove_vote(&mut self, account_id: &String, kind: &VoteKind) -> (r: Result<
        (),
        DaoError,
    >)
        requires
            old(self)@.wf(),
        ensures
            final(self)@.wf(),
            !old(self)@.votes.contains_key(account_id@) ==> r == Err::<(), DaoError>(
                DaoError::DidNotVote,
            ) && final(self)@ == old(self)@,
            old(self)@.votes.contains_key(account_id@) ==> r == Ok::<(), DaoError>(())
                && final(self)@ == old(self)@.without_vote(account_id@),
    {
        let vote = match self.votes.remove(account_id) {
            Some(v) => v,
            None => {
                assert(self.votes@ == old(self).votes@);
                return Err(DaoError::DidNotVote);
            },
        };
        proof {
            lemma_without_vote(old(self)@, account_id@);
        }
        let tally: u128 = match self.option_delegations.get(&vote.option) {
            Some(t) => *t,
            None => 0,
        };
        self.total_delegation_amount = self.total_delegation_amount - vote.delegations;
        self.option_delegations.insert(vote.option, tally - vote.delegations);
        Ok(())
    }

    /// Records a donation to the proposal. The donor's entry is overwritten
    /// with the new amount; the total grows by it. Returns what the donor's
    /// entry held before, what it holds now, and the amount.
    pub fn donate(&mut self, account_id: &String, amount: u128) -> (r: (u128, u128, u128))
        requires
            old(self)@.total_donations + amount <= u128::MAX,
        ensures
            final(self)@ == old(self)@.with_donation(account_id@, amount),
            r == (crate::sum::amount(old(self)@.donations, account_id@), amount, amount),
            old(self)@.wf() ==> final(self)@.wf(),
    {
        let prev_amount: u128 = match self.donations.get(account_id) {
            Some(a) => *a,
            None => 0,
        };
        self.donations.insert(account_id.clone(), amount);
        self.total_donations = self.total_donations + amount;
        (prev_amount, amount, amount)
    }

    /// Casts the vote of an account, in place of its earlier vote if it has
    /// one. The weight recorded is the delegation handed in, or one under
    /// `MajorityVote`.
    pub fn update_votes(
        &mut self,
        account_id: &String,
        option_id: &String,
        delegation_amount: u128,
    ) -> (r: Result<(), DaoError>)
        requires
            old(self)@.wf(),
            match old(self)@.kind {
                ProposalKind::Vote { vote_kind } => old(self)@.options.contains_key(option_id@)
                    ==> old(self)@.total_delegation_amount - old(self)@.weight_of(account_id@)
                    + effective_weight(vote_kind, delegation_amount) <= u128::MAX,
                ProposalKind::Donate => true,
            },
        ensures
            final(self)@.wf(),
            match old(self)@.kind {
                ProposalKind::Donate => r == Err::<(), DaoError>(DaoError::NotVotable)
                    && final(self)@ == old(self)@,
                ProposalKind::Vote { vote_kind } => if old(self)@.options.contains_key(
                    option_id@,
                ) {
                    r == Ok::<(), DaoError>(()) && final(self)@ == old(self)@.revoted(
                        account_id@,
                        option_id@,
                        effective_weight(vote_kind, delegation_amount),
                    )
                } else {
                    r == Err::<(), DaoError>(DaoError::InvalidOption) && final(self)@ == old(self)@
                },
            },
    {
        match self.kind {
            ProposalKind::Donate => Err(DaoError::NotVotable),
            ProposalKind::Vote { vote_kind } => {
                if !self.options.contains_key(option_id) {
                    return Err(DaoError::InvalidOption);
                }
                if self.votes.contains_key(account_id) {
                    proof {
                        lemma_without_vote(self@, account_id@);
                    }
                    let _ = self.remove_vote(account_id, &vote_kind);
                }
                self.add_vote(account_id, option_id, delegation_amount, &vote_kind)
            },
        }
    }

    /// Sets where the proposal stands.
    pub fn update_status(&mut self, status: ProposalStatus)
        ensures
            final(self)@ == (ProposalView { status, ..old(self)@ }),
            old(self)@.wf() ==> final(self)@.wf(),
    {
        self.status = status;
    }
}

impl Clone for Proposal {
    fn clone(&self) -> (r: Self)
        ensures
            r@ == self@,
    {
        Proposal {
            proposer: self.proposer.clone(),
            description: self.description.clone(),
            kind: self.kind,
            status: self.status,
            options: self.options.duplicate(),
            submission_time: self.submission_time,
            duration: self.duration,
            donations: self.donations.duplicate(),
            total_donations: self.total_donations,
            total_delegation_amount: self.total_delegation_amount,
            votes: self.votes.duplicate(),
            option_delegations: self.option_delegations.duplicate(),
        }
    }
}

/// A stored proposal, tagged with the version of its layout.
pub enum VersionedProposal {
    Default(Proposal),
}

impl View for VersionedProposal {
    type V = ProposalView;

    open spec fn view(&self) -> ProposalView {
        match self {
            VersionedProposal::Default(p) => p@,
        }
    }
}

impl Clone for VersionedProposal {
    fn clone(&self) -> (r: Self)
        ensures
            r@ == self@,
    {
        match self {
            VersionedProposal::Default(p) => VersionedProposal::Default(p.clone()),
        }
    }
}

impl From<VersionedProposal> for Proposal {
    fn from(v: VersionedProposal) -> (p: Proposal) {
        match v {
            VersionedProposal::Default(p) => p,
        }
    }
}

impl FromSpecImpl<VersionedProposal> for Proposal {
    open spec fn obeys_from_spec() -> bool {
        true
    }

    open spec fn from_spec(v: VersionedProposal) -> Proposal {
        match v {
            VersionedProposal::Default(p) => p,
        }
    }
}

/// Wrapping a proposal in its version tag and unwrapping it again gives the
/// proposal back, and the other way round.
pub proof fn lemma_versioned_proposal_round_trip(p: Proposal, v: VersionedProposal)
    ensures
        <Proposal as FromSpec<VersionedProposal>>::from_spec(VersionedProposal::Default(p))
            == p,
        VersionedProposal::Default(<Proposal as FromSpec<VersionedProposal>>::from_spec(v))
            == v,
        VersionedProposal::Default(p)@ == p@,
{
}

/// What a member hands in to make a proposal.
pub struct ProposalInput {
    pub description: String,
    pub kind: ProposalKind,
    /// How long the voting window is to stay open.
    pub duration: u64,
    /// The options of a poll; not read where the proposal collects donations.
    pub options: StringMap<VoteOption>,
}

impl ProposalView {
    /// A proposal as it stands when it has just been made.
    pub open spec fn opened(
        proposer: Seq<char>,
        description: Seq<char>,
        kind: ProposalKind,
        duration: u64,
        options: Map<Seq<char>, VoteOptionView>,
        now: u64,
    ) -> ProposalView {
        ProposalView {
            proposer,
            description,
            kind,
            status: ProposalStatus::InProgress,
            options: if kind is Donate {
                Map::empty()
            } else {
                options
            },
            submission_time: now,
            duration,
            donations: Map::empty(),
            total_donations: 0,
            total_delegation_amount: 0,
            votes: Map::empty(),
            option_delegations: Map::empty(),
        }
    }
}

/// A proposal without votes has all its tallies in agreement.
pub proof fn lemma_opened_wf(
    proposer: Seq<char>,
    description: Seq<char>,
    kind: ProposalKind,
    duration: u64,
    options: Map<Seq<char>, VoteOptionView>,
    now: u64,
)
    requires
        options.dom().finite(),
    ensures
        ProposalView::opened(proposer, description, kind, duration, options, now).wf(),
{
    let p = ProposalView::opened(proposer, description, kind, duration, options, now);
    assert(weights(p.votes) == Map::<Seq<char>, u128>::empty());
    assert forall|o: Seq<char>|
        amount(p.option_delegations, o) == sum(#[trigger] weights_for(p.votes, o)) by {
        assert(weights_for(p.votes, o) == Map::<Seq<char>, u128>::empty());
    }
}

impl Proposal {
    /// Makes a proposal out of what its proposer handed in, at the moment
    /// `now`. The duration must exceed the minimum.
    pub fn from_input(input: ProposalInput, proposer: String, now: u64) -> (r: Result<
        Proposal,
        DaoError,
    >)
        ensures
            match r {
                Ok(p) => input.duration > MIN_DURATION && p@ == ProposalView::opened(
                    proposer@,
                    input.description@,
                    input.kind,
                    input.duration,
                    input.options@,
                    now,
                ) && p@.wf(),
                Err(e) => e == DaoError::InvalidDuration && input.duration <= MIN_DURATION,
            },
    {
        if input.duration <= MIN_DURATION {
            return Err(DaoError::InvalidDuration);
        }
        proof {
            input.options.lemma_finite();
            lemma_opened_wf(
                proposer@,
                input.description@,
                input.kind,
                input.duration,
                input.options@,
                now,
            );
        }
        let options = match input.kind {
            ProposalKind::Donate => StringMap::new(),
            ProposalKind::Vote { .. } => input.options,
        };
        Ok(
            Proposal {
                proposer,
                description: input.description,
                kind: input.kind,
                status: ProposalStatus::InProgress,
                options,
                submission_time: now,
                duration: input.duration,
                donations: StringMap::new(),
                total_donations: 0,
                total_delegation_amount: 0,
                votes: StringMap::new(),
                option_delegations: StringMap::new(),
            },
        )
    }
}

/// Casting a vote, in place of an earlier one or not, keeps the tallies in
/// agreement with the votes.
pub proof fn lemma_revoted_wf(p: ProposalView, account: Seq<char>, option: Seq<char>, weight: u128)
    requires
        p.wf(),
        p.options.contains_key(option),
        p.total_delegation_amount - p.weight_of(account) + weight <= u128::MAX,
    ensures
        p.revoted(account, option, weight).wf(),
{
    if p.votes.contains_key(account) {
        lemma_without_vote(p, account);
        lemma_with_vote(p.without_vote(account), account, option, weight);
    } else {
        lemma_with_vote(p, account, option, weight);
    }
}

/// One vote: who votes, for which option, and with what weight.
pub struct Ballot {
    pub account: Seq<char>,
    pub option: Seq<char>,
    pub weight: u128,
}

impl ProposalView {
    /// The proposal after one ballot. A ballot that the proposal does not
    /// take leaves it as it was: one for an option that it does not have, or
    /// one that its total has no room for.
    pub open spec fn after_ballot(self, ballot: Ballot) -> Self {
        if self.options.contains_key(ballot.option) && self.total_delegation_amount
            - self.weight_of(ballot.account) + ballot.weight <= u128::MAX {
            self.revoted(ballot.account, ballot.option, ballot.weight)
        } else {
            self
        }
    }

    /// The proposal after a sequence of ballots.
    pub open spec fn after_ballots(self, ballots: Seq<Ballot>) -> Self
        decreases ballots.len(),
    {
        if ballots.len() == 0 {
            self
        } else {
            self.after_ballots(ballots.drop_last()).after_ballot(ballots.last())
        }
    }
}

/// Whoever votes, and however often, the total of the proposal stays the sum
/// of its option tallies and the sum of the weights of its votes, and no
/// account has more than the one vote that the map of votes holds for it.
pub proof fn lemma_ballots_keep_tallies(p: ProposalView, ballots: Seq<Ballot>)
    requires
        p.wf(),
    ensures
        p.after_ballots(ballots).wf(),
        sum(p.after_ballots(ballots).option_delegations) == p.after_ballots(
            ballots,
        ).total_delegation_amount,
        sum(weights(p.after_ballots(ballots).votes)) == p.after_ballots(
            ballots,
        ).total_delegation_amount,
    decreases ballots.len(),
{
    if ballots.len() > 0 {
        lemma_ballots_keep_tallies(p, ballots.drop_last());
        let before = p.after_ballots(ballots.drop_last());
        let ballot = ballots.last();
        if before.options.contains_key(ballot.option) && before.total_delegation_amount
            - before.weight_of(ballot.account) + ballot.weight <= u128::MAX {
            lemma_revoted_wf(before, ballot.account, ballot.option, ballot.weight);
        }
    }
}

/// A voter who moves a vote from one option to another with the same weight
/// leaves the first option's tally where it was before the voter voted, adds
/// the weight to the second option's tally, and leaves the total at what it
/// was after the first vote.
pub proof fn lemma_revote_moves_weight(
    p: ProposalView,
    account: Seq<char>,
    first: Seq<char>,
    second: Seq<char>,
    weight: u128,
)
    requires
        p.wf(),
        !p.votes.contains_key(account),
        p.options.contains_key(first),
        p.options.contains_key(second),
        first != second,
        p.total_delegation_amount + weight <= u128::MAX,
    ensures
        ({
            let once = p.revoted(account, first, weight);
            let twice = once.revoted(account, second, weight);
            &&& amount(twice.option_delegations, first) == amount(p.option_delegations, first)
            &&& amount(twice.option_delegations, second) == amount(p.option_delegations, second)
                + weight
            &&& twice.total_delegation_amount == once.total_delegation_amount
            &&& twice.votes[account] == (VoteView { option: second, delegations: weight })
            &&& twice.wf()
        }),
{
    let once = p.revoted(account, first, weight);
    lemma_with_vote(p, account, first, weight);
    lemma_without_vote(once, account);
    lemma_sum_bounds(p.option_delegations, second);
    lemma_with_vote(once.without_vote(account), account, second, weight);
}

impl ContractView {
    /// The ledger with one more proposal, under the next free id.
    pub open spec fn with_new_proposal(self, proposal: ProposalView) -> Self {
        ContractView {
            proposals: self.proposals.insert(self.last_proposal_id, proposal),
            last_proposal_id: (self.last_proposal_id + 1) as u64,
            ..self
        }
    }

    /// The proposal `id`, if the ledger has it, has its tallies in agreement
    /// with its votes.
    pub open spec fn proposal_ok(self, id: u64) -> bool {
        self.proposals.contains_key(id) ==> self.proposals[id].wf()
    }

    /// Why a vote is turned down, if it is.
    pub open spec fn vote_error(self, caller: Seq<char>, now: u64, id: u64, option: Seq<char>)
        -> Option<DaoError> {
        if !self.proposals.contains_key(id) {
            Some(DaoError::NotFound)
        } else if !self.delegations.contains_key(caller) {
            Some(DaoError::NoDelegation)
        } else if self.proposals[id].expired_at(now) {
            Some(DaoError::ProposalExpired)
        } else if self.proposals[id].kind is Donate {
            Some(DaoError::NotVotable)
        } else if !self.proposals[id].options.contains_key(option) {
            Some(DaoError::InvalidOption)
        } else {
            None
        }
    }

    /// The weight that a vote of `caller` on the proposal `id` is recorded
    /// with: what the caller has delegated at this moment, or one.
    pub open spec fn vote_weight(self, caller: Seq<char>, id: u64) -> u128 {
        match self.proposals[id].kind {
            ProposalKind::Vote { vote_kind } => effective_weight(
                vote_kind,
                self.delegations[caller],
            ),
            ProposalKind::Donate => 0,
        }
    }

    /// Whether the total of the proposal `id` has room for a vote of
    /// `caller`: with the caller's earlier vote taken off and the new weight
    /// put on, it does not pass what its type holds.
    pub open spec fn vote_fits(self, caller: Seq<char>, id: u64) -> bool {
        self.proposals[id].total_delegation_amount - self.proposals[id].weight_of(caller)
            + self.vote_weight(caller, id) <= u128::MAX
    }

    /// The ledger after `caller` has voted for `option` on the proposal `id`.
    pub open spec fn voted(self, caller: Seq<char>, id: u64, option: Seq<char>) -> Self {
        ContractView {
            proposals: self.proposals.insert(
                id,
                self.proposals[id].revoted(caller, option, self.vote_weight(caller, id)),
            ),
            ..self
        }
    }

    /// Why the closing of a proposal is turned down, if it is.
    pub open spec fn finalize_error(self, caller: Seq<char>, id: u64) -> Option<DaoError> {
        if !self.proposals.contains_key(id) {
            Some(DaoError::NotFound)
        } else if caller != self.owner_id {
            Some(DaoError::Forbidden)
        } else {
            None
        }
    }

    /// The ledger after the proposal `id` was closed.
    pub open spec fn finalized(self, id: u64) -> Self {
        ContractView {
            proposals: self.proposals.insert(
                id,
                ProposalView { status: ProposalStatus::Expired, ..self.proposals[id] },
            ),
            ..self
        }
    }
}

/// A vote that arrives when the window has closed is turned down.
pub proof fn lemma_vote_outside_window(
    c: ContractView,
    caller: Seq<char>,
    now: u64,
    id: u64,
    option: Seq<char>,
)
    requires
        c.proposals.contains_key(id),
        now >= c.proposals[id].submission_time + c.proposals[id].duration,
    ensures
        c.vote_error(caller, now, id, option) == Some(DaoError::NoDelegation) || c.vote_error(
            caller,
            now,
            id,
            option,
        ) == Some(DaoError::ProposalExpired),
{
}

impl Contract {
    /// Puts a proposal of `caller` to the organization at the moment `now`,
    /// and returns its id.
    pub fn add_proposal(&mut self, caller: &String, now: u64, proposal_input: ProposalInput) -> (r:
        Result<u64, DaoError>)
        requires
            old(self)@.last_proposal_id < u64::MAX,
        ensures
            match r {
                Ok(id) => proposal_input.duration > MIN_DURATION
                    && id == old(self)@.last_proposal_id
                    && final(self)@ == old(self)@.with_new_proposal(
                    ProposalView::opened(
                        caller@,
                        proposal_input.description@,
                        proposal_input.kind,
                        proposal_input.duration,
                        proposal_input.options@,
                        now,
                    ),
                ),
                Err(e) => e == DaoError::InvalidDuration && proposal_input.duration
                    <= MIN_DURATION && final(self)@ == old(self)@,
            },
            old(self)@.stores_wf() ==> final(self)@.stores_wf(),
            old(self)@.balanced() ==> final(self)@.balanced(),
    {
        let proposal = match Proposal::from_input(proposal_input, caller.clone(), now) {
            Ok(p) => p,
            Err(e) => {
                return Err(e);
            },
        };
        let id = self.last_proposal_id;
        self.proposals.insert(id, VersionedProposal::Default(proposal));
        self.last_proposal_id = self.last_proposal_id + 1;
        assert(self@.proposals == old(self)@.proposals.insert(id, proposal@));
        Ok(id)
    }

    /// Whether the proposal `id`, if the ledger has it, has its tallies in
    /// agreement with its votes.
    pub fn proposal_is_well_formed(&self, id: u64) -> (b: bool)
        ensures
            b == self@.proposal_ok(id),
    {
        match self.proposals.get(&id) {
            Some(VersionedProposal::Default(p)) => p.is_well_formed(),
            None => true,
        }
    }

    /// Whether a vote of `caller` on the proposal `id` would fit its total.
    /// It does where the ledger has no such proposal or the caller holds no
    /// delegation entry: such a vote is turned down and adds nothing.
    pub fn check_vote_fits(&self, caller: &String, id: u64) -> (b: bool)
        ensures
            b == (self@.proposals.contains_key(id) && self@.delegations.contains_key(caller@)
                ==> self@.vote_fits(caller@, id)),
    {
        let proposal = match self.proposals.get(&id) {
            Some(VersionedProposal::Default(p)) => p,
            None => {
                return true;
            },
        };
        let delegated: u128 = match self.delegations.get(caller) {
            Some(w) => *w,
            None => {
                return true;
            },
        };
        let weight: u128 = match proposal.kind {
            ProposalKind::Vote { vote_kind: VoteKind::VoteByDelegation } => delegated,
            ProposalKind::Vote { vote_kind: VoteKind::MajorityVote } => 1,
            ProposalKind::Donate => 0,
        };
        let prior: u128 = match proposal.votes.get(caller) {
            Some(v) => v.delegations,
            None => 0,
        };
        if prior <= proposal.total_delegation_amount {
            (proposal.total_delegation_amount - prior).checked_add(weight).is_some()
        } else {
            true
        }
    }

    /// Casts the vote of `caller` for `option_id` on the proposal `id`, in
    /// place of an earlier vote of the caller if there is one. The weight is
    /// what the caller has delegated at this moment.
    pub fn vote(&mut self, caller: &String, now: u64, id: u64, option_id: &String) -> (r: Result<
        (),
        DaoError,
    >)
        requires
            old(self)@.proposal_ok(id),
            old(self)@.vote_error(caller@, now, id, option_id@) is None ==> old(self)@.vote_fits(
                caller@,
                id,
            ),
        ensures
            final(self)@.proposal_ok(id),
            old(self)@.stores_wf() ==> final(self)@.stores_wf(),
            old(self)@.balanced() ==> final(self)@.balanced(),
            match old(self)@.vote_error(caller@, now, id, option_id@) {
                Some(e) => r == Err::<(), DaoError>(e) && final(self)@ == old(self)@,
                None => r == Ok::<(), DaoError>(()) && final(self)@ == old(self)@.voted(
                    caller@,
                    id,
                    option_id@,
                ),
            },
    {
        let user_delegate: u128 = match self.proposals.get(&id) {
            None => {
                return Err(DaoError::NotFound);
            },
            Some(stored) => {
                let user_delegate: u128 = match self.delegations.get(caller) {
                    Some(w) => *w,
                    None => {
                        return Err(DaoError::NoDelegation);
                    },
                };
                match stored {
                    VersionedProposal::Default(proposal) => {
                        if !before_end(now, proposal.submission_time, proposal.duration) {
                            return Err(DaoError::ProposalExpired);
                        }
                    },
                }
                user_delegate
            },
        };
        let stored = match self.proposals.remove(&id) {
            Some(v) => v,
            None => {
                return Err(DaoError::NotFound);
            },
        };
        let mut proposal: Proposal = match stored {
            VersionedProposal::Default(p) => p,
        };
        assert(proposal@ == old(self)@.proposals[id]);
        let r = proposal.update_votes(caller, option_id, user_delegate);
        self.proposals.insert(id, VersionedProposal::Default(proposal));
        assert(self@.proposals == old(self)@.proposals.insert(id, proposal@));
        proof {
            if r is Err {
                assert(self@.proposals == old(self)@.proposals);
            }
        }
        r
    }

    /// Closes the proposal `id`. Only the owner may.
    pub fn finalize_proposal(&mut self, caller: &String, id: u64) -> (r: Result<(), DaoError>)
        ensures
            match old(self)@.finalize_error(caller@, id) {
                Some(e) => r == Err::<(), DaoError>(e) && final(self)@ == old(self)@,
                None => r == Ok::<(), DaoError>(()) && final(self)@ == old(self)@.finalized(id),
            },
            old(self)@.proposal_ok(id) ==> final(self)@.proposal_ok(id),
            old(self)@.stores_wf() ==> final(self)@.stores_wf(),
            old(self)@.balanced() ==> final(self)@.balanced(),
    {
        if self.proposals.get(&id).is_none() {
            return Err(DaoError::NotFound);
        }
        if *caller != self.owner_id {
            return Err(DaoError::Forbidden);
        }
        let stored = match self.proposals.remove(&id) {
            Some(v) => v,
            None => {
                return Err(DaoError::NotFound);
            },
        };
        let mut proposal: Proposal = match stored {
            VersionedProposal::Default(p) => p,
        };
        proposal.update_status(ProposalStatus::Expired);
        self.proposals.insert(id, VersionedProposal::Default(proposal));
        assert(self@.proposals == old(self)@.proposals.insert(id, proposal@));
        Ok(())
    }

    /// Does to the proposal `id` what `action` says: casts the caller's vote,
    /// or closes the proposal.
    pub fn act_proposal(&mut self, caller: &String, now: u64, id: u64, action: Action) -> (r:
        Result<(), DaoError>)
        requires
            old(self)@.proposal_ok(id),
            match action {
                Action::Vote { option_id } => old(self)@.vote_error(caller@, now, id, option_id@)
                    is None ==> old(self)@.vote_fits(caller@, id),
                Action::Finalize => true,
            },
        ensures
            final(self)@.proposal_ok(id),
            old(self)@.stores_wf() ==> final(self)@.stores_wf(),
            old(self)@.balanced() ==> final(self)@.balanced(),
            match action {
                Action::Vote { option_id } => match old(self)@.vote_error(
                    caller@,
                    now,
                    id,
                    option_id@,
                ) {
                    Some(e) => r == Err::<(), DaoError>(e) && final(self)@ == old(self)@,
                    None => r == Ok::<(), DaoError>(()) && final(self)@ == old(self)@.voted(
                        caller@,
                        id,
                        option_id@,
                    ),
                },
                Action::Finalize => match old(self)@.finalize_error(caller@, id) {
                    Some(e) => r == Err::<(), DaoError>(e) && final(self)@ == old(self)@,
                    None => r == Ok::<(), DaoError>(()) && final(self)@ == old(self)@.finalized(
                        id,
                    ),
                },
            },
    {
        match action {
            Action::Vote { option_id } => self.vote(caller, now, id, &option_id),
            Action::Finalize => self.finalize_proposal(caller, id),
        }
    }
}

} // verus!
