//! Holding a proposal's tallies against its votes.

use vstd::prelude::*;

use crate::proposals::{weights, weights_for, Proposal, ProposalKind, Vote, VoteView};
use crate::string_map::{distinct_keys, lemma_to_map_dom, to_map, StringMap};
use crate::sum::{
    amount, lemma_seq_sum, lemma_seq_sum_prefix, lemma_sum_bounds, lemma_sum_zero, seq_sum, sum,
};

verus! {

/// The voters with the weights of their votes, in the order of the votes.
pub open spec fn vote_lines(s: Seq<(Seq<char>, VoteView)>) -> Seq<(Seq<char>, u128)> {
    s.map_values(|e: (Seq<char>, VoteView)| (e.0, e.1.delegations))
}

/// The voters for one option with the weights of their votes, in the order of
/// the votes.
pub open spec fn vote_lines_for(s: Seq<(Seq<char>, VoteView)>, option: Seq<char>) -> Seq<
    (Seq<char>, u128),
>
    decreases s.len(),
{
    if s.len() == 0 {
        Seq::empty()
    } else if s.last().1.option == option {
        vote_lines_for(s.drop_last(), option).push((s.last().0, s.last().1.delegations))
    } else {
        vote_lines_for(s.drop_last(), option)
    }
}

/// The lines of the votes stand for the map of their weights.
pub proof fn lemma_vote_lines(s: Seq<(Seq<char>, VoteView)>)
    requires
        distinct_keys(s),
    ensures
        distinct_keys(vote_lines(s)),
        to_map(vote_lines(s)) == weights(to_map(s)),
    decreases s.len(),
{
    let r = vote_lines(s);
    assert forall|i: int, j: int| 0 <= i < j < r.len() implies r[i].0 != r[j].0 by {
        assert(r[i].0 == s[i].0 && r[j].0 == s[j].0);
    }
    if s.len() == 0 {
        assert(weights(to_map(s)) == Map::<Seq<char>, u128>::empty());
    } else {
        let t = s.drop_last();
        assert(distinct_keys(t));
        lemma_vote_lines(t);
        assert(r.drop_last() == vote_lines(t));
        assert(weights(to_map(s)) == weights(to_map(t)).insert(s.last().0, s.last().1.delegations));
    }
}

/// The lines of the votes for an option stand for the map of the weights of
/// the votes for it.
pub proof fn lemma_vote_lines_for(s: Seq<(Seq<char>, VoteView)>, option: Seq<char>)
    requires
        distinct_keys(s),
    ensures
        distinct_keys(vote_lines_for(s, option)),
        to_map(vote_lines_for(s, option)) == weights_for(to_map(s), option),
    decreases s.len(),
{
    let r = vote_lines_for(s, option);
    if s.len() == 0 {
        assert(weights_for(to_map(s), option) == Map::<Seq<char>, u128>::empty());
    } else {
        let t = s.drop_last();
        let k = s.last().0;
        let v = s.last().1;
        assert(distinct_keys(t));
        lemma_vote_lines_for(t, option);
        let before = vote_lines_for(t, option);
        lemma_to_map_dom(t);
        lemma_to_map_dom(before);
        assert(!to_map(t).contains_key(k)) by {
            if to_map(t).contains_key(k) {
                let i = choose|i: int| 0 <= i < t.len() && #[trigger] t[i].0 == k;
                assert(s[i].0 == s[s.len() - 1].0);
            }
        }
        if v.option == option {
            assert(r.drop_last() == before);
            assert(weights_for(to_map(s), option) == weights_for(to_map(t), option).insert(
                k,
                v.delegations,
            ));
            assert forall|i: int, j: int| 0 <= i < j < r.len() implies r[i].0 != r[j].0 by {
                if j == before.len() {
                    assert(to_map(before).contains_key(before[i].0));
                }
            }
        } else {
            assert(weights_for(to_map(s), option) == weights_for(to_map(t), option));
        }
    }
}

/// The votes for an option among the first votes weigh no more than those
/// among all votes.
pub proof fn lemma_vote_lines_for_prefix(s: Seq<(Seq<char>, VoteView)>, n: int, option: Seq<char>)
    requires
        0 <= n <= s.len(),
    ensures
        seq_sum(vote_lines_for(s.take(n), option)) <= seq_sum(vote_lines_for(s, option)),
    decreases s.len(),
{
    if n < s.len() {
        let t = s.drop_last();
        lemma_vote_lines_for_prefix(t, n, option);
        assert(t.take(n) == s.take(n));
        if s.last().1.option == option {
            assert(vote_lines_for(s, option).drop_last() == vote_lines_for(t, option));
        }
    } else {
        assert(s.take(n) == s);
    }
}

/// The sum of the recorded weights of all votes, unless it exceeds what a
/// `u128` holds.
pub fn sum_of_votes(votes: &StringMap<Vote>) -> (r: Option<u128>)
    ensures
        match r {
            Some(t) => t == sum(weights(votes@)),
            None => sum(weights(votes@)) > u128::MAX,
        },
{
    let n = votes.len();
    let ghost lines = vote_lines(votes.entries());
    proof {
        votes.lemma_view();
        lemma_vote_lines(votes.entries());
        lemma_seq_sum(lines);
    }
    let mut acc: u128 = 0;
    let mut i: usize = 0;
    while i < n
        invariant
            i <= n,
            n == votes.entries().len(),
            lines == vote_lines(votes.entries()),
            acc == seq_sum(lines.take(i as int)),
            seq_sum(lines) == sum(weights(votes@)),
        decreases n - i,
    {
        let weight: u128 = match votes.entry(i) {
            Some((_, v)) => v.delegations,
            None => 0,
        };
        proof {
            assert(lines.take(i + 1).drop_last() == lines.take(i as int));
            assert(lines.take(i + 1).last() == lines[i as int]);
            lemma_seq_sum_prefix(lines, i + 1);
        }
        match acc.checked_add(weight) {
            Some(next) => {
                acc = next;
            },
            None => {
                return None;
            },
        }
        i += 1;
    }
    assert(lines.take(n as int) == lines);
    Some(acc)
}

/// The sum of the recorded weights of the votes for one option, unless it
/// exceeds what a `u128` holds.
pub fn sum_of_votes_for(votes: &StringMap<Vote>, option: &String) -> (r: Option<u128>)
    ensures
        match r {
            Some(t) => t == sum(weights_for(votes@, option@)),
            None => sum(weights_for(votes@, option@)) > u128::MAX,
        },
{
    let n = votes.len();
    let ghost s = votes.entries();
    proof {
        votes.lemma_view();
        lemma_vote_lines_for(s, option@);
        lemma_seq_sum(vote_lines_for(s, option@));
    }
    let mut acc: u128 = 0;
    let mut i: usize = 0;
    assert(s.take(0) == Seq::<(Seq<char>, VoteView)>::empty());
    while i < n
        invariant
            i <= n,
            n == s.len(),
            s == votes.entries(),
            acc == seq_sum(vote_lines_for(s.take(i as int), option@)),
            seq_sum(vote_lines_for(s, option@)) == sum(weights_for(votes@, option@)),
        decreases n - i,
    {
        let counted: u128 = match votes.entry(i) {
            Some((_, v)) => if v.option == *option {
                v.delegations
            } else {
                0
            },
            None => 0,
        };
        proof {
            assert(s.take(i + 1).drop_last() == s.take(i as int));
            assert(s.take(i + 1).last() == s[i as int]);
            if s[i as int].1.option == option@ {
                assert(vote_lines_for(s.take(i + 1), option@).drop_last() == vote_lines_for(
                    s.take(i as int),
                    option@,
                ));
            }
            lemma_vote_lines_for_prefix(s, i + 1, option@);
        }
        match acc.checked_add(counted) {
            Some(next) => {
                acc = next;
            },
            None => {
                return None;
            },
        }
        i += 1;
    }
    assert(s.take(n as int) == s);
    Some(acc)
}

impl Proposal {
    /// Whether every tally of the proposal has an option and agrees with the
    /// votes for it.
    fn tallies_agree(&self) -> (b: bool)
        ensures
            b == (forall|o: Seq<char>| #[trigger]
                self@.option_delegations.contains_key(o) ==> self@.options.contains_key(o)
                    && self@.option_delegations[o] == sum(weights_for(self@.votes, o))),
    {
        let n = self.option_delegations.len();
        let ghost tallies = self.option_delegations.entries();
        proof {
            self.option_delegations.lemma_view();
            lemma_to_map_dom(tallies);
        }
        let mut i: usize = 0;
        while i < n
            invariant
                i <= n,
                n == tallies.len(),
                tallies == self.option_delegations.entries(),
                forall|j: int|
                    0 <= j < i ==> self@.options.contains_key((#[trigger] tallies[j]).0)
                        && tallies[j].1 == sum(weights_for(self@.votes, tallies[j].0)),
            decreases n - i,
        {
            match self.option_delegations.entry(i) {
                Some((option, tally)) => {
                    let agrees = match sum_of_votes_for(&self.votes, option) {
                        Some(t) => t == *tally,
                        None => false,
                    };
                    if !agrees || !self.options.contains_key(option) {
                        assert(self@.option_delegations.contains_key(option@));
                        assert(self@.option_delegations[option@] == *tally);
                        return false;
                    }
                },
                None => {},
            }
            i += 1;
        }
        proof {
            assert forall|o: Seq<char>| #[trigger]
                self@.option_delegations.contains_key(o) implies self@.options.contains_key(o)
                && self@.option_delegations[o] == sum(weights_for(self@.votes, o)) by {
                let j = choose|j: int| 0 <= j < tallies.len() && #[trigger] tallies[j].0 == o;
                crate::string_map::lemma_to_map_entry(tallies, j);
            }
        }
        true
    }

    /// Whether every vote of the proposal is for one of its options, and
    /// weighs nothing where its option has no tally.
    fn votes_are_counted(&self) -> (b: bool)
        ensures
            b == (forall|a: Seq<char>| #[trigger]
                self@.votes.contains_key(a) ==> self@.options.contains_key(self@.votes[a].option)
                    && (self@.option_delegations.contains_key(self@.votes[a].option)
                    || self@.votes[a].delegations == 0)),
    {
        let n = self.votes.len();
        let ghost votes = self.votes.entries();
        proof {
            self.votes.lemma_view();
            lemma_to_map_dom(votes);
        }
        let mut i: usize = 0;
        while i < n
            invariant
                i <= n,
                n == votes.len(),
                votes == self.votes.entries(),
                forall|j: int|
                    0 <= j < i ==> self@.options.contains_key((#[trigger] votes[j]).1.option) && (
                    self@.option_delegations.contains_key(votes[j].1.option)
                        || votes[j].1.delegations == 0),
            decreases n - i,
        {
            match self.votes.entry(i) {
                Some((voter, vote)) => {
                    assert(self@.votes.contains_key(voter@));
                    assert(self@.votes[voter@] == vote@);
                    if !self.options.contains_key(&vote.option) {
                        return false;
                    }
                    if vote.delegations != 0
                        && !self.option_delegations.contains_key(&vote.option) {
                        return false;
                    }
                },
                None => {},
            }
            i += 1;
        }
        proof {
            assert forall|a: Seq<char>| #[trigger]
                self@.votes.contains_key(a) implies self@.options.contains_key(
                self@.votes[a].option,
            ) && (self@.option_delegations.contains_key(self@.votes[a].option)
                || self@.votes[a].delegations == 0) by {
                let j = choose|j: int| 0 <= j < votes.len() && #[trigger] votes[j].0 == a;
                crate::string_map::lemma_to_map_entry(votes, j);
            }
        }
        true
    }

    /// Whether the tallies of the proposal agree with its votes.
    pub fn is_well_formed(&self) -> (b: bool)
        ensures
            b == self@.wf(),
    {
        proof {
            self.options.lemma_finite();
            self.votes.lemma_finite();
            self.option_delegations.lemma_finite();
            self.donations.lemma_finite();
        }
        let votes_total = sum_of_votes(&self.votes);
        let tallies_total = self.option_delegations.checked_sum();
        let totals_agree = match (votes_total, tallies_total) {
            (Some(v), Some(t)) => v == self.total_delegation_amount && t
                == self.total_delegation_amount,
            _ => false,
        };
        if !totals_agree {
            return false;
        }
        if !self.tallies_agree() {
            proof {
                if self@.wf() {
                    assert forall|o: Seq<char>| #[trigger]
                        self@.option_delegations.contains_key(o) implies self@.options.contains_key(
                        o,
                    ) && self@.option_delegations[o] == sum(weights_for(self@.votes, o)) by {
                        assert(amount(self@.option_delegations, o) == sum(
                            weights_for(self@.votes, o),
                        ));
                    }
                }
            }
            return false;
        }
        if !self.votes_are_counted() {
            proof {
                if self@.wf() {
                    assert forall|a: Seq<char>| #[trigger]
                        self@.votes.contains_key(a) implies self@.options.contains_key(
                        self@.votes[a].option,
                    ) && (self@.option_delegations.contains_key(self@.votes[a].option)
                        || self@.votes[a].delegations == 0) by {
                        let o = self@.votes[a].option;
                        crate::proposals::lemma_weights_for_finite(self@.votes, o);
                        assert(amount(self@.option_delegations, o) == sum(
                            weights_for(self@.votes, o),
                        ));
                        lemma_sum_bounds(weights_for(self@.votes, o), a);
                    }
                }
            }
            return false;
        }
        let donation_without_options = match self.kind {
            ProposalKind::Donate => self.options.len() == 0,
            ProposalKind::Vote { .. } => true,
        };
        proof {
            self.options.lemma_view();
            lemma_to_map_dom(self.options.entries());
            if self.options.entries().len() == 0 {
                assert(self@.options.dom() == Set::<Seq<char>>::empty());
            } else {
                assert(self@.options.contains_key(self.options.entries()[0].0));
            }
        }
        if !donation_without_options {
            return false;
        }
        proof {
            assert forall|o: Seq<char>|
                amount(self@.option_delegations, o) == sum(
                    #[trigger] weights_for(self@.votes, o),
                ) by {
                crate::proposals::lemma_weights_for_finite(self@.votes, o);
                if !self@.option_delegations.contains_key(o) {
                    lemma_sum_zero(weights_for(self@.votes, o));
                }
            }
        }
        true
    }
}

} // verus!
