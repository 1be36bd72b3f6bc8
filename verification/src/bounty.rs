//! Bounties: a reserved amount split among named claimants, who claim their
//! shares while the window is open; what is left is swept once it has closed.

use vstd::prelude::*;
use vstd::std_specs::convert::FromSpec;
use vstd::std_specs::convert::FromSpecImpl;

use crate::contract::{Contract, ContractView};
use crate::errors::DaoError;
use crate::string_map::StringMap;
use crate::sum::{lemma_sum_remove, sum};
use crate::types::{
    after_end, before_end, window_end, TransferRequest, TransferRequestView, MIN_DURATION,
};

verus! {

broadcast use vstd::std_specs::hash::group_hash_axioms;

/// A bounty.
pub struct Bounty {
    pub description: String,
    /// The token contract in which the bounty is paid.
    pub token: String,
    /// What was reserved when the bounty was made.
    pub total: u128,
    /// What has not been paid out yet.
    pub rest: u128,
    /// When the claim window opens.
    pub start_time: u64,
    /// How long the claim window stays open.
    pub duration: u64,
    /// The share of each claimant that has not claimed yet.
    pub claimer: StringMap<u128>,
}

/// A bounty as contracts see it.
pub struct BountyView {
    pub description: Seq<char>,
    pub token: Seq<char>,
    pub total: u128,
    pub rest: u128,
    pub start_time: u64,
    pub duration: u64,
    pub claimer: Map<Seq<char>, u128>,
}

impl View for Bounty {
    type V = BountyView;

    open spec fn view(&self) -> BountyView {
        BountyView {
            description: self.description@,
            token: self.token@,
            total: self.total,
            rest: self.rest,
            start_time: self.start_time,
            duration: self.duration,
            claimer: self.claimer@,
        }
    }
}

impl Clone for Bounty {
    fn clone(&self) -> (r: Self)
        ensures
            r@ == self@,
    {
        Bounty {
            description: self.description.clone(),
            token: self.token.clone(),
            total: self.total,
            rest: self.rest,
            start_time: self.start_time,
            duration: self.duration,
            claimer: self.claimer.duplicate(),
        }
    }
}

impl BountyView {
    /// The rest is exactly what the remaining claimants are owed. This holds
    /// of a bounty from its making until its rest is swept.
    pub open spec fn reserved(self) -> bool {
        &&& self.claimer.dom().finite()
        &&& self.rest == sum(self.claimer)
        &&& self.rest <= self.total
    }

    /// Whether the claim window is open at `now`.
    pub open spec fn open_at(self, now: u64) -> bool {
        now < window_end(self.start_time, self.duration)
    }

    /// Whether the window has closed before `now`, so that the rest can be
    /// swept.
    pub open spec fn sweepable_at(self, now: u64) -> bool {
        now > window_end(self.start_time, self.duration)
    }

    /// The bounty after `account` has claimed its share.
    pub open spec fn claimed(self, account: Seq<char>) -> Self {
        BountyView {
            claimer: self.claimer.remove(account),
            rest: (self.rest - self.claimer[account]) as u128,
            ..self
        }
    }

    /// The bounty after its rest has been swept.
    pub open spec fn swept(self) -> Self {
        BountyView { rest: 0, ..self }
    }

    /// Why a claim of `account` at `now` is turned down, if it is. A share
    /// that exceeds the rest can only be met after a sweep, which shows that
    /// the window has closed.
    pub open spec fn claim_error(self, account: Seq<char>, now: u64) -> Option<DaoError> {
        if !self.open_at(now) {
            Some(DaoError::ClaimWindowClosed)
        } else if !self.claimer.contains_key(account) {
            Some(DaoError::NoAllotment)
        } else if self.claimer[account] > self.rest {
            Some(DaoError::ClaimWindowClosed)
        } else {
            None
        }
    }
}

/// While the rest is what the claimants are owed, no share exceeds the rest,
/// and a claim leaves the rest at what the others are owed.
pub proof fn lemma_claim_keeps_reserved(b: BountyView, account: Seq<char>)
    requires
        b.reserved(),
        b.claimer.contains_key(account),
    ensures
        b.claimer[account] <= b.rest,
        b.claimed(account).reserved(),
        b.claimed(account).rest + b.claimer[account] == b.rest,
        b.claimed(account).total == b.total,
{
    lemma_sum_remove(b.claimer, account);
}

/// What the owner hands in to make a bounty.
pub struct BountyInput {
    pub description: String,
    pub token: String,
    pub start_time: u64,
    pub duration: u64,
    /// The share of each claimant.
    pub claimer: StringMap<u128>,
}

impl BountyView {
    /// A bounty as it stands when it has just been made.
    pub open spec fn funded(
        description: Seq<char>,
        token: Seq<char>,
        start_time: u64,
        duration: u64,
        claimer: Map<Seq<char>, u128>,
        total: u128,
    ) -> BountyView {
        BountyView { description, token, total, rest: total, start_time, duration, claimer }
    }
}

impl Bounty {
    /// Makes a bounty out of what the owner handed in, with `total_attached`
    /// tokens to back it. The duration must exceed the minimum, and the
    /// shares must add up to the attached amount.
    pub fn from_input(input: BountyInput, total_attached: u128) -> (r: Result<Bounty, DaoError>)
        ensures
            match r {
                Ok(b) => input.duration > MIN_DURATION && sum(input.claimer@) == total_attached
                    && b@ == BountyView::funded(
                    input.description@,
                    input.token@,
                    input.start_time,
                    input.duration,
                    input.claimer@,
                    total_attached,
                ) && b@.reserved(),
                Err(e) => if input.duration <= MIN_DURATION {
                    e == DaoError::DurationTooShort
                } else {
                    e == DaoError::AmountMismatch && sum(input.claimer@) != total_attached
                },
            },
    {
        if input.duration <= MIN_DURATION {
            return Err(DaoError::DurationTooShort);
        }
        let matches = match input.claimer.checked_sum() {
            Some(total) => total == total_attached,
            None => false,
        };
        if !matches {
            return Err(DaoError::AmountMismatch);
        }
        proof {
            input.claimer.lemma_finite();
        }
        Ok(
            Bounty {
                description: input.description,
                token: input.token,
                total: total_attached,
                rest: total_attached,
                start_time: input.start_time,
                duration: input.duration,
                claimer: input.claimer,
            },
        )
    }

    /// Pays out the share of `account_id`: the claimant leaves the bounty and
    /// the rest shrinks by the share, which is returned. Claims are taken
    /// only while the window is open.
    pub fn claim(&mut self, account_id: &String, now: u64) -> (r: Result<u128, DaoError>)
        ensures
            match old(self)@.claim_error(account_id@, now) {
                Some(e) => r == Err::<u128, DaoError>(e) && final(self)@ == old(self)@,
                None => r == Ok::<u128, DaoError>(old(self)@.claimer[account_id@]) && final(self)@
                    == old(self)@.claimed(account_id@),
            },
            old(self)@.reserved() ==> final(self)@.reserved(),
    {
        proof {
            if self@.reserved() && self@.claimer.contains_key(account_id@) {
                lemma_claim_keeps_reserved(self@, account_id@);
            }
        }
        if !before_end(now, self.start_time, self.duration) {
            return Err(DaoError::ClaimWindowClosed);
        }
        let share: u128 = match self.claimer.get(account_id) {
            Some(s) => *s,
            None => {
                return Err(DaoError::NoAllotment);
            },
        };
        if share > self.rest {
            return Err(DaoError::ClaimWindowClosed);
        }
        self.claimer.remove(account_id);
        self.rest = self.rest - share;
        Ok(share)
    }

    /// Sweeps what is left of the bounty to `receiver_id`, once the window
    /// has closed: the rest drops to zero, and a transfer of what it was is
    /// asked for.
    pub fn withdraw_the_rest(&mut self, receiver_id: &String, now: u64) -> (r: Result<
        TransferRequest,
        DaoError,
    >)
        ensures
            match r {
                Ok(request) => old(self)@.sweepable_at(now) && final(self)@ == old(self)@.swept()
                    && request@ == (TransferRequestView {
                    token: old(self)@.token,
                    receiver_id: receiver_id@,
                    amount: old(self)@.rest,
                }),
                Err(e) => e == DaoError::NotYetExpired && !old(self)@.sweepable_at(now)
                    && final(self)@ == old(self)@,
            },
    {
        if !after_end(now, self.start_time, self.duration) {
            return Err(DaoError::NotYetExpired);
        }
        let rest_balance = self.rest;
        self.rest = 0;
        Ok(
            TransferRequest {
                token: self.token.clone(),
                receiver_id: receiver_id.clone(),
                amount: rest_balance,
            },
        )
    }
}

/// A stored bounty, tagged with the version of its layout.
pub enum VersionedBounty {
    Default(Bounty),
}

impl View for VersionedBounty {
    type V = BountyView;

    open spec fn view(&self) -> BountyView {
        match self {
            VersionedBounty::Default(b) => b@,
        }
    }
}

impl Clone for VersionedBounty {
    fn clone(&self) -> (r: Self)
        ensures
            r@ == self@,
    {
        match self {
            VersionedBounty::Default(b) => VersionedBounty::Default(b.clone()),
        }
    }
}

impl From<VersionedBounty> for Bounty {
    fn from(v: VersionedBounty) -> (b: Bounty) {
        match v {
            VersionedBounty::Default(b) => b,
        }
    }
}

impl FromSpecImpl<VersionedBounty> for Bounty {
    open spec fn obeys_from_spec() -> bool {
        true
    }

    open spec fn from_spec(v: VersionedBounty) -> Bounty {
        match v {
            VersionedBounty::Default(b) => b,
        }
    }
}

/// Wrapping a bounty in its version tag and unwrapping it again gives the
/// bounty back, and the other way round.
pub proof fn lemma_versioned_bounty_round_trip(b: Bounty, v: VersionedBounty)
    ensures
        <Bounty as FromSpec<VersionedBounty>>::from_spec(VersionedBounty::Default(b)) == b,
        VersionedBounty::Default(<Bounty as FromSpec<VersionedBounty>>::from_spec(v)) == v,
        VersionedBounty::Default(b)@ == b@,
{
}

impl ContractView {
    /// The ledger with one more bounty, under the next free id.
    pub open spec fn with_new_bounty(self, bounty: BountyView) -> Self {
        ContractView {
            bounties: self.bounties.insert(self.last_bounty_id, bounty),
            last_bounty_id: (self.last_bounty_id + 1) as u64,
            ..self
        }
    }

    /// Why the making of a bounty is turned down, if it is.
    pub open spec fn create_bounty_error(
        self,
        caller: Seq<char>,
        duration: u64,
        claimer: Map<Seq<char>, u128>,
        total_attached: u128,
    ) -> Option<DaoError> {
        if caller != self.owner_id {
            Some(DaoError::Forbidden)
        } else if duration <= MIN_DURATION {
            Some(DaoError::DurationTooShort)
        } else if sum(claimer) != total_attached {
            Some(DaoError::AmountMismatch)
        } else {
            None
        }
    }

    /// Why a claim on the bounty `id` is turned down, if it is.
    pub open spec fn claim_bounty_error(self, caller: Seq<char>, now: u64, id: u64) -> Option<
        DaoError,
    > {
        if !self.bounties.contains_key(id) {
            Some(DaoError::NotFound)
        } else {
            self.bounties[id].claim_error(caller, now)
        }
    }

    /// Why the sweeping of the bounty `id` is turned down, if it is.
    pub open spec fn sweep_error(self, caller: Seq<char>, now: u64, id: u64) -> Option<DaoError> {
        if caller != self.owner_id {
            Some(DaoError::Forbidden)
        } else if !self.bounties.contains_key(id) {
            Some(DaoError::NotFound)
        } else if !self.bounties[id].sweepable_at(now) {
            Some(DaoError::NotYetExpired)
        } else {
            None
        }
    }
}

impl Contract {
    /// Makes a bounty backed by `total_attached` tokens, and returns its id.
    /// Only the owner may.
    pub fn create_bounty(
        &mut self,
        caller: &String,
        bounty_input: BountyInput,
        total_attached: u128,
    ) -> (r: Result<u64, DaoError>)
        requires
            old(self)@.last_bounty_id < u64::MAX,
        ensures
            match old(self)@.create_bounty_error(
                caller@,
                bounty_input.duration,
                bounty_input.claimer@,
                total_attached,
            ) {
                Some(e) => r == Err::<u64, DaoError>(e) && final(self)@ == old(self)@,
                None => r == Ok::<u64, DaoError>(old(self)@.last_bounty_id)
                    && final(self)@ == old(self)@.with_new_bounty(
                    BountyView::funded(
                        bounty_input.description@,
                        bounty_input.token@,
                        bounty_input.start_time,
                        bounty_input.duration,
                        bounty_input.claimer@,
                        total_attached,
                    ),
                ) && final(self)@.bounties[old(self)@.last_bounty_id].reserved(),
            },
            old(self)@.stores_wf() ==> final(self)@.stores_wf(),
            old(self)@.balanced() ==> final(self)@.balanced(),
    {
        if *caller != self.owner_id {
            return Err(DaoError::Forbidden);
        }
        let bounty = match Bounty::from_input(bounty_input, total_attached) {
            Ok(b) => b,
            Err(e) => {
                return Err(e);
            },
        };
        let id = self.last_bounty_id;
        self.bounties.insert(id, VersionedBounty::Default(bounty));
        self.last_bounty_id = self.last_bounty_id + 1;
        assert(self@.bounties == old(self)@.bounties.insert(id, bounty@));
        Ok(id)
    }

    /// Pays out the caller's share of the bounty `id`: the share leaves the
    /// bounty, and its transfer to the caller is asked for.
    pub fn claim_bounty(&mut self, caller: &String, now: u64, bounty_id: u64) -> (r: Result<
        TransferRequest,
        DaoError,
    >)
        ensures
            match old(self)@.claim_bounty_error(caller@, now, bounty_id) {
                Some(e) => r == Err::<TransferRequest, DaoError>(e) && final(self)@ == old(self)@,
                None => r is Ok && r->Ok_0@ == (TransferRequestView {
                    token: old(self)@.bounties[bounty_id].token,
                    receiver_id: caller@,
                    amount: old(self)@.bounties[bounty_id].claimer[caller@],
                }) && final(self)@ == (ContractView {
                    bounties: old(self)@.bounties.insert(
                        bounty_id,
                        old(self)@.bounties[bounty_id].claimed(caller@),
                    ),
                    ..old(self)@
                }),
            },
            old(self)@.stores_wf() ==> final(self)@.stores_wf(),
    {
        let stored = match self.bounties.remove(&bounty_id) {
            Some(v) => v,
            None => {
                assert(self@.bounties == old(self)@.bounties);
                return Err(DaoError::NotFound);
            },
        };
        let mut bounty: Bounty = match stored {
            VersionedBounty::Default(b) => b,
        };
        let claimed = bounty.claim(caller, now);
        let r = match claimed {
            Ok(amount) => Ok(
                TransferRequest {
                    token: bounty.token.clone(),
                    receiver_id: caller.clone(),
                    amount,
                },
            ),
            Err(e) => Err(e),
        };
        self.bounties.insert(bounty_id, VersionedBounty::Default(bounty));
        assert(self@.bounties == old(self)@.bounties.insert(bounty_id, bounty@));
        proof {
            if r is Err {
                assert(self@.bounties == old(self)@.bounties);
            }
        }
        r
    }

    /// Sweeps what is left of the bounty `id` to the caller, once its window
    /// has closed. Only the owner may.
    pub fn with_draw_bounty_rest(&mut self, caller: &String, now: u64, bounty_id: u64) -> (r:
        Result<TransferRequest, DaoError>)
        ensures
            match old(self)@.sweep_error(caller@, now, bounty_id) {
                Some(e) => r == Err::<TransferRequest, DaoError>(e) && final(self)@ == old(self)@,
                None => r is Ok && r->Ok_0@ == (TransferRequestView {
                    token: old(self)@.bounties[bounty_id].token,
                    receiver_id: caller@,
                    amount: old(self)@.bounties[bounty_id].rest,
                }) && final(self)@ == (ContractView {
                    bounties: old(self)@.bounties.insert(
                        bounty_id,
                        old(self)@.bounties[bounty_id].swept(),
                    ),
                    ..old(self)@
                }),
            },
            old(self)@.stores_wf() ==> final(self)@.stores_wf(),
    {
        if *caller != self.owner_id {
            return Err(DaoError::Forbidden);
        }
        let stored = match self.bounties.remove(&bounty_id) {
            Some(v) => v,
            None => {
                assert(self@.bounties == old(self)@.bounties);
                return Err(DaoError::NotFound);
            },
        };
        let mut bounty: Bounty = match stored {
            VersionedBounty::Default(b) => b,
        };
        let r = bounty.withdraw_the_rest(caller, now);
        self.bounties.insert(bounty_id, VersionedBounty::Default(bounty));
        assert(self@.bounties == old(self)@.bounties.insert(bounty_id, bounty@));
        proof {
            if r is Err {
                assert(self@.bounties == old(self)@.bounties);
            }
        }
        r
    }
}

} // verus!
