use connesus_dao::{
    Action, Contract, DaoError, DaoMetadata, Proposal, ProposalBaseInformation, ProposalInput,
    ProposalKind, ProposalStatus, StringMap, TransferArgs, TransferPurpose, VersionedProposal,
    VoteKind, VoteOption,
};

const MINUTE: u64 = 60_000_000_000;

fn s(text: &str) -> String {
    text.to_string()
}

fn option(title: &str) -> VoteOption {
    VoteOption { title: s(title), description: s("about ") + title, min_vote_weight: 0 }
}

fn poll_input(vote_kind: VoteKind) -> ProposalInput {
    let mut options = StringMap::new();
    options.insert(s("x"), option("X"));
    options.insert(s("y"), option("Y"));
    ProposalInput {
        description: s("a poll"),
        kind: ProposalKind::Vote { vote_kind },
        duration: 3 * MINUTE,
        options,
    }
}

fn donate_input() -> ProposalInput {
    let mut options = StringMap::new();
    options.insert(s("ignored"), option("ignored"));
    ProposalInput {
        description: s("a collection"),
        kind: ProposalKind::Donate,
        duration: 3 * MINUTE,
        options,
    }
}

fn poll(vote_kind: VoteKind) -> Proposal {
    Proposal::from_input(poll_input(vote_kind), s("alice"), 1000).unwrap()
}

fn tally(p: &Proposal, option: &str) -> u128 {
    p.option_delegations.get(&s(option)).copied().unwrap_or(0)
}

fn sum_of_tallies(p: &Proposal) -> u128 {
    p.option_delegations.checked_sum().unwrap()
}

fn ledger() -> Contract {
    let mut c = Contract::new(DaoMetadata::test_config(), s("token.near"), s("owner.near"));
    c.internal_delegate(&s("alice"), 10);
    c.internal_delegate(&s("bob"), 3);
    c
}

#[test]
fn policy_labels() {
    assert_eq!(ProposalKind::Donate.to_policy_label(), "donate");
    assert_eq!(
        ProposalKind::Vote { vote_kind: VoteKind::MajorityVote }.to_policy_label(),
        "vote"
    );
}

#[test]
fn duration_must_exceed_two_minutes() {
    let mut input = poll_input(VoteKind::VoteByDelegation);
    input.duration = 2 * MINUTE;
    assert!(matches!(
        Proposal::from_input(input, s("alice"), 5),
        Err(DaoError::InvalidDuration)
    ));
    let mut input = poll_input(VoteKind::VoteByDelegation);
    input.duration = 2 * MINUTE + 1;
    assert!(Proposal::from_input(input, s("alice"), 5).is_ok());
}

#[test]
fn new_poll_copies_options_and_starts_in_progress() {
    let p = poll(VoteKind::VoteByDelegation);
    assert_eq!(p.proposer, "alice");
    assert_eq!(p.description, "a poll");
    assert_eq!(p.status, ProposalStatus::InProgress);
    assert_eq!(p.submission_time, 1000);
    assert_eq!(p.duration, 3 * MINUTE);
    assert_eq!(p.options.len(), 2);
    assert_eq!(p.options.get(&s("x")).unwrap().title, "X");
    assert_eq!(p.total_delegation_amount, 0);
    assert_eq!(p.total_donations, 0);
    assert_eq!(p.votes.len(), 0);
    assert_eq!(p.option_delegations.len(), 0);
    assert_eq!(p.donations.len(), 0);
}

#[test]
fn new_collection_has_no_options() {
    let p = Proposal::from_input(donate_input(), s("alice"), 1000).unwrap();
    assert_eq!(p.kind, ProposalKind::Donate);
    assert_eq!(p.options.len(), 0);
}

#[test]
fn add_vote_records_weight() {
    let mut p = poll(VoteKind::VoteByDelegation);
    assert_eq!(p.add_vote(&s("alice"), &s("x"), 10, &VoteKind::VoteByDelegation), Ok(()));
    assert_eq!(p.add_vote(&s("bob"), &s("x"), 3, &VoteKind::VoteByDelegation), Ok(()));
    assert_eq!(p.add_vote(&s("carol"), &s("y"), 4, &VoteKind::VoteByDelegation), Ok(()));
    assert_eq!(tally(&p, "x"), 13);
    assert_eq!(tally(&p, "y"), 4);
    assert_eq!(p.total_delegation_amount, 17);
    assert_eq!(sum_of_tallies(&p), 17);
    let vote = p.get_user_voted(&s("bob")).unwrap();
    assert_eq!(vote.option, "x");
    assert_eq!(vote.delegations, 3);
    assert!(p.get_user_voted(&s("dave")).is_none());
}

#[test]
fn add_vote_rejects_unknown_option_and_second_vote() {
    let mut p = poll(VoteKind::VoteByDelegation);
    assert_eq!(
        p.add_vote(&s("alice"), &s("z"), 10, &VoteKind::VoteByDelegation),
        Err(DaoError::InvalidOption)
    );
    assert_eq!(p.add_vote(&s("alice"), &s("x"), 10, &VoteKind::VoteByDelegation), Ok(()));
    assert_eq!(
        p.add_vote(&s("alice"), &s("y"), 10, &VoteKind::VoteByDelegation),
        Err(DaoError::AlreadyVoted)
    );
    assert_eq!(tally(&p, "x"), 10);
    assert_eq!(tally(&p, "y"), 0);
    assert_eq!(p.total_delegation_amount, 10);
    assert_eq!(p.votes.len(), 1);
}

#[test]
fn majority_vote_weighs_one() {
    let mut p = poll(VoteKind::MajorityVote);
    assert_eq!(p.update_votes(&s("alice"), &s("x"), 10), Ok(()));
    assert_eq!(p.update_votes(&s("bob"), &s("x"), 3), Ok(()));
    assert_eq!(tally(&p, "x"), 2);
    assert_eq!(p.total_delegation_amount, 2);
    assert_eq!(p.get_user_voted(&s("alice")).unwrap().delegations, 1);
}

#[test]
fn remove_vote_takes_recorded_weight_back() {
    let mut p = poll(VoteKind::VoteByDelegation);
    p.add_vote(&s("alice"), &s("x"), 10, &VoteKind::VoteByDelegation).unwrap();
    p.add_vote(&s("bob"), &s("x"), 3, &VoteKind::VoteByDelegation).unwrap();
    assert_eq!(p.remove_vote(&s("alice"), &VoteKind::VoteByDelegation), Ok(()));
    assert_eq!(tally(&p, "x"), 3);
    assert_eq!(p.total_delegation_amount, 3);
    assert!(p.get_user_voted(&s("alice")).is_none());
    assert_eq!(
        p.remove_vote(&s("alice"), &VoteKind::VoteByDelegation),
        Err(DaoError::DidNotVote)
    );
    assert_eq!(p.total_delegation_amount, 3);
}

#[test]
fn revote_moves_weight_between_options() {
    let mut p = poll(VoteKind::VoteByDelegation);
    p.update_votes(&s("bob"), &s("x"), 3).unwrap();
    let x_before = tally(&p, "x");
    let y_before = tally(&p, "y");
    assert_eq!(p.update_votes(&s("alice"), &s("x"), 10), Ok(()));
    let total = p.total_delegation_amount;
    assert_eq!(p.update_votes(&s("alice"), &s("y"), 10), Ok(()));
    assert_eq!(tally(&p, "x"), x_before);
    assert_eq!(tally(&p, "y"), y_before + 10);
    assert_eq!(p.total_delegation_amount, total);
    assert_eq!(p.votes.len(), 2);
    assert_eq!(sum_of_tallies(&p), p.total_delegation_amount);
}

#[test]
fn revote_with_changed_weight_replaces_the_old_weight() {
    let mut p = poll(VoteKind::VoteByDelegation);
    p.update_votes(&s("alice"), &s("x"), 10).unwrap();
    p.update_votes(&s("alice"), &s("x"), 4).unwrap();
    assert_eq!(tally(&p, "x"), 4);
    assert_eq!(p.total_delegation_amount, 4);
    assert_eq!(p.votes.len(), 1);
}

#[test]
fn update_votes_rejects_collection_and_unknown_option() {
    let mut d = Proposal::from_input(donate_input(), s("alice"), 1000).unwrap();
    assert_eq!(d.update_votes(&s("alice"), &s("x"), 10), Err(DaoError::NotVotable));
    assert_eq!(d.votes.len(), 0);
    let mut p = poll(VoteKind::VoteByDelegation);
    p.update_votes(&s("alice"), &s("x"), 10).unwrap();
    assert_eq!(p.update_votes(&s("alice"), &s("z"), 10), Err(DaoError::InvalidOption));
    assert_eq!(tally(&p, "x"), 10);
    assert_eq!(p.get_user_voted(&s("alice")).unwrap().option, "x");
}

#[test]
fn tallies_agree_after_any_votes() {
    let mut p = poll(VoteKind::VoteByDelegation);
    let moves: [(&str, &str, u128); 7] = [
        ("alice", "x", 10),
        ("bob", "y", 3),
        ("alice", "y", 12),
        ("carol", "x", 1),
        ("bob", "x", 3),
        ("alice", "x", 0),
        ("carol", "y", 8),
    ];
    for (who, option, weight) in moves {
        assert_eq!(p.update_votes(&s(who), &s(option), weight), Ok(()));
        assert_eq!(sum_of_tallies(&p), p.total_delegation_amount);
        let mut recorded = 0;
        let mut i = 0;
        while let Some((_, vote)) = p.votes.entry(i) {
            recorded += vote.delegations;
            i += 1;
        }
        assert_eq!(recorded, p.total_delegation_amount);
    }
    assert_eq!(p.votes.len(), 3);
    assert_eq!(p.total_delegation_amount, 11);
    assert_eq!(tally(&p, "x"), 3);
    assert_eq!(tally(&p, "y"), 8);
}

#[test]
fn proposal_donation_overwrites_entry_and_grows_total() {
    let mut p = Proposal::from_input(donate_input(), s("alice"), 1000).unwrap();
    assert_eq!(p.donate(&s("bob"), 5), (0, 5, 5));
    assert_eq!(p.donate(&s("bob"), 7), (5, 7, 7));
    assert_eq!(p.donations.get(&s("bob")), Some(&7));
    assert_eq!(p.total_donations, 12);
}

#[test]
fn update_status_sets_status() {
    let mut p = poll(VoteKind::VoteByDelegation);
    p.update_status(ProposalStatus::Expired);
    assert_eq!(p.status, ProposalStatus::Expired);
    assert_eq!(p.description, "a poll");
}

#[test]
fn versioned_proposal_round_trip() {
    let mut p = poll(VoteKind::VoteByDelegation);
    p.update_votes(&s("alice"), &s("x"), 10).unwrap();
    let back = Proposal::from(VersionedProposal::Default(p.clone()));
    assert_eq!(back.proposer, p.proposer);
    assert_eq!(back.total_delegation_amount, 10);
    assert_eq!(back.votes.get(&s("alice")).unwrap().option, "x");
    assert_eq!(back.option_delegations.get(&s("x")), Some(&10));
    let info = ProposalBaseInformation::from(VersionedProposal::Default(p));
    assert_eq!(info.proposer, "alice");
    assert_eq!(info.total_delegation_amount, 10);
    assert_eq!(info.options.len(), 2);
    assert_eq!(info.option_delegations.get(&s("x")), Some(&10));
}

#[test]
fn ledger_assigns_dense_proposal_ids() {
    let mut c = ledger();
    assert_eq!(c.add_proposal(&s("alice"), 1000, poll_input(VoteKind::VoteByDelegation)), Ok(0));
    assert_eq!(c.add_proposal(&s("bob"), 1001, donate_input()), Ok(1));
    let mut short = donate_input();
    short.duration = MINUTE;
    assert_eq!(c.add_proposal(&s("bob"), 1002, short), Err(DaoError::InvalidDuration));
    assert_eq!(c.get_last_proposal_id(), 2);
    assert_eq!(c.get_proposal(1, &s("bob")).unwrap().proposal.proposer, "bob");
    assert!(c.get_proposal(2, &s("bob")).is_none());
}

#[test]
fn vote_uses_current_delegation() {
    let mut c = ledger();
    c.add_proposal(&s("alice"), 1000, poll_input(VoteKind::VoteByDelegation)).unwrap();
    assert_eq!(c.vote(&s("alice"), 2000, 0, &s("x")), Ok(()));
    let shown = c.get_proposal(0, &s("alice")).unwrap();
    assert_eq!(shown.user_select.option, "x");
    assert_eq!(shown.user_select.delegations, 10);
    assert_eq!(shown.proposal.total_delegation_amount, 10);
    c.internal_delegate(&s("alice"), 5);
    assert_eq!(c.vote(&s("alice"), 3000, 0, &s("y")), Ok(()));
    let shown = c.get_proposal(0, &s("alice")).unwrap();
    assert_eq!(shown.user_select.option, "y");
    assert_eq!(shown.user_select.delegations, 15);
    assert_eq!(shown.proposal.total_delegation_amount, 15);
    assert_eq!(shown.proposal.option_delegations.get(&s("x")), Some(&0));
    assert_eq!(shown.proposal.option_delegations.get(&s("y")), Some(&15));
}

#[test]
fn vote_errors_in_order() {
    let mut c = ledger();
    c.add_proposal(&s("alice"), 1000, poll_input(VoteKind::VoteByDelegation)).unwrap();
    c.add_proposal(&s("alice"), 1000, donate_input()).unwrap();
    assert_eq!(c.vote(&s("nobody"), 2000, 7, &s("x")), Err(DaoError::NotFound));
    assert_eq!(c.vote(&s("nobody"), 2000, 0, &s("x")), Err(DaoError::NoDelegation));
    assert_eq!(c.vote(&s("alice"), 2000, 1, &s("x")), Err(DaoError::NotVotable));
    assert_eq!(c.vote(&s("alice"), 2000, 0, &s("z")), Err(DaoError::InvalidOption));
    assert_eq!(c.get_proposal(0, &s("alice")).unwrap().proposal.total_delegation_amount, 0);
}

#[test]
fn vote_outside_window_is_rejected_and_changes_nothing() {
    let mut c = ledger();
    c.add_proposal(&s("alice"), 1000, poll_input(VoteKind::VoteByDelegation)).unwrap();
    assert_eq!(c.vote(&s("bob"), 1000 + 3 * MINUTE - 1, 0, &s("x")), Ok(()));
    assert_eq!(
        c.vote(&s("alice"), 1000 + 3 * MINUTE, 0, &s("x")),
        Err(DaoError::ProposalExpired)
    );
    assert_eq!(
        c.vote(&s("bob"), u64::MAX, 0, &s("y")),
        Err(DaoError::ProposalExpired)
    );
    let shown = c.get_proposal(0, &s("alice")).unwrap();
    assert_eq!(shown.proposal.total_delegation_amount, 3);
    assert_eq!(shown.proposal.option_delegations.get(&s("x")), Some(&3));
    assert_eq!(shown.proposal.option_delegations.get(&s("y")), None);
    assert_eq!(shown.user_select.option, "_");
    assert_eq!(shown.user_select.delegations, 0);
}

#[test]
fn finalize_is_for_the_owner() {
    let mut c = ledger();
    c.add_proposal(&s("alice"), 1000, poll_input(VoteKind::VoteByDelegation)).unwrap();
    assert_eq!(c.finalize_proposal(&s("owner.near"), 3), Err(DaoError::NotFound));
    assert_eq!(c.finalize_proposal(&s("alice"), 0), Err(DaoError::Forbidden));
    assert_eq!(
        c.get_proposal(0, &s("alice")).unwrap().proposal.status,
        ProposalStatus::InProgress
    );
    assert_eq!(c.act_proposal(&s("owner.near"), 5, 0, Action::Finalize), Ok(()));
    assert_eq!(c.get_proposal(0, &s("alice")).unwrap().proposal.status, ProposalStatus::Expired);
}

#[test]
fn act_proposal_votes() {
    let mut c = ledger();
    c.add_proposal(&s("alice"), 1000, poll_input(VoteKind::MajorityVote)).unwrap();
    assert_eq!(c.act_proposal(&s("bob"), 2000, 0, Action::Vote { option_id: s("y") }), Ok(()));
    let shown = c.get_proposal(0, &s("bob")).unwrap();
    assert_eq!(shown.user_select.option, "y");
    assert_eq!(shown.user_select.delegations, 1);
}

#[test]
fn donation_to_collection_through_transfer() {
    let mut c = ledger();
    c.add_proposal(&s("alice"), 1000, donate_input()).unwrap();
    let args = TransferArgs { purpose: TransferPurpose::ProposalDonate(0) };
    assert_eq!(c.ft_on_transfer(&s("token.near"), &s("bob"), 40, Some(args)), Ok(0));
    let args = TransferArgs { purpose: TransferPurpose::ProposalDonate(0) };
    assert_eq!(c.ft_on_transfer(&s("token.near"), &s("bob"), 2, Some(args)), Ok(0));
    assert_eq!(c.get_proposal(0, &s("bob")).unwrap().proposal.total_donations, 42);
    let lines = c.get_proposal_donation(0, 0, 10).unwrap();
    assert_eq!(lines.len(), 1);
    assert_eq!(lines[0].account, "bob");
    assert_eq!(lines[0].doate_balance, 2);
}

#[test]
fn donation_to_poll_is_rejected_and_changes_nothing() {
    let mut c = ledger();
    c.add_proposal(&s("alice"), 1000, poll_input(VoteKind::VoteByDelegation)).unwrap();
    let args = TransferArgs { purpose: TransferPurpose::ProposalDonate(0) };
    assert_eq!(
        c.ft_on_transfer(&s("token.near"), &s("bob"), 40, Some(args)),
        Err(DaoError::WrongProposalKind)
    );
    let args = TransferArgs { purpose: TransferPurpose::ProposalDonate(9) };
    assert_eq!(
        c.ft_on_transfer(&s("token.near"), &s("bob"), 40, Some(args)),
        Err(DaoError::NotFound)
    );
    assert_eq!(c.get_proposal(0, &s("bob")).unwrap().proposal.total_donations, 0);
    assert_eq!(c.get_proposal_donation(0, 0, 10).unwrap().len(), 0);
}

#[test]
fn proposal_pages() {
    let mut c = ledger();
    for i in 0..5 {
        c.add_proposal(&s("alice"), 1000 + i, donate_input()).unwrap();
    }
    let ids = |page: Vec<connesus_dao::ProposalOutput>| {
        page.iter().map(|o| o.id).collect::<Vec<u64>>()
    };
    assert_eq!(ids(c.get_proposals(0, 2, &s("alice"))), vec![0, 1]);
    assert_eq!(ids(c.get_proposals(3, 10, &s("alice"))), vec![3, 4]);
    assert_eq!(ids(c.get_proposals(1, u64::MAX, &s("alice"))), vec![1, 2, 3, 4]);
    assert_eq!(ids(c.get_proposals(5, 3, &s("alice"))), Vec::<u64>::new());
    assert_eq!(ids(c.get_proposals(9, 3, &s("alice"))), Vec::<u64>::new());
    assert_eq!(ids(c.get_proposals(2, 0, &s("alice"))), Vec::<u64>::new());
}

#[test]
fn leaderboard_is_sorted_and_paged() {
    let mut c = ledger();
    c.add_proposal(&s("alice"), 1000, donate_input()).unwrap();
    for (who, amount) in [("a", 5u128), ("b", 9), ("c", 5), ("d", 1), ("e", 9)] {
        let args = TransferArgs { purpose: TransferPurpose::ProposalDonate(0) };
        assert_eq!(c.ft_on_transfer(&s("token.near"), &s(who), amount, Some(args)), Ok(0));
    }
    let names = |lines: Vec<connesus_dao::ProposalDonateAsObject>| {
        lines.iter().map(|l| (l.account.clone(), l.doate_balance)).collect::<Vec<_>>()
    };
    assert_eq!(
        names(c.get_proposal_donation(0, 0, 10).unwrap()),
        vec![(s("b"), 9), (s("e"), 9), (s("a"), 5), (s("c"), 5), (s("d"), 1)]
    );
    assert_eq!(
        names(c.get_proposal_donation(0, 1, 2).unwrap()),
        vec![(s("e"), 9), (s("a"), 5)]
    );
    assert_eq!(names(c.get_proposal_donation(0, 4, usize::MAX).unwrap()), vec![(s("d"), 1)]);
    assert_eq!(names(c.get_proposal_donation(0, 7, 2).unwrap()), vec![]);
    assert!(matches!(c.get_proposal_donation(3, 0, 2), Err(DaoError::NotFound)));
}
