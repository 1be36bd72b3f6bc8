use connesus_dao::types::{after_end, before_end, MIN_DURATION};
use connesus_dao::{
    BountyInput, Contract, DaoMetadata, ProposalInput, ProposalKind, StringMap, TransferPurpose,
    VoteKind, VoteOption,
};

fn s(text: &str) -> String {
    text.to_string()
}

fn ledger() -> Contract {
    Contract::new(DaoMetadata::test_config(), s("token.near"), s("owner.near"))
}

fn poll() -> ProposalInput {
    let mut options = StringMap::new();
    options.insert(
        s("x"),
        VoteOption { title: s("X"), description: s("the first"), min_vote_weight: 0 },
    );
    ProposalInput {
        description: s("a poll"),
        kind: ProposalKind::Vote { vote_kind: VoteKind::VoteByDelegation },
        duration: MIN_DURATION + 1,
        options,
    }
}

#[test]
fn minimum_duration_is_two_minutes_in_nanoseconds() {
    assert_eq!(MIN_DURATION, 2 * 60 * 1_000_000_000);
}

#[test]
fn window_ends_where_start_plus_duration_lies() {
    assert!(before_end(9, 4, 6));
    assert!(!before_end(10, 4, 6));
    assert!(!after_end(10, 4, 6));
    assert!(after_end(11, 4, 6));
    assert!(before_end(u64::MAX, u64::MAX, 1));
    assert!(!after_end(u64::MAX, u64::MAX, 1));
    assert!(!before_end(0, 0, 0));
    assert!(after_end(1, 0, 0));
}

#[test]
fn a_fresh_ledger_is_balanced_and_stays_so() {
    let mut c = ledger();
    assert!(c.is_balanced());
    c.internal_delegate(&s("alice"), 10);
    assert!(c.is_balanced());
    c.internal_undelegate(&s("alice"), 3).unwrap();
    assert!(c.is_balanced());
    c.internal_reduce_delegation(&s("alice"), 2).unwrap();
    assert!(!c.is_balanced());
}

#[test]
fn registering_again_resets_the_entry() {
    let mut c = ledger();
    c.internal_delegate(&s("alice"), 10);
    assert_eq!(c.register_delegation(&s("token.near"), &s("alice"), 16, 1), Ok(()));
    assert_eq!(c.get_user_weight(&s("alice")), 0);
    assert_eq!(c.delegation_total_supply(), 10);
    assert!(!c.is_balanced());
}

#[test]
fn transfers_that_would_overflow_do_not_fit() {
    let mut c = ledger();
    c.internal_delegate(&s("alice"), u128::MAX - 5);
    assert!(c.transfer_fits(&s("bob"), 5, &TransferPurpose::Delegate(s("bob"))));
    assert!(!c.transfer_fits(&s("bob"), 6, &TransferPurpose::Delegate(s("bob"))));
    c.open_donate(&s("bob"), u128::MAX);
    assert!(c.transfer_fits(&s("bob"), 0, &TransferPurpose::OpenDonate));
    assert!(!c.transfer_fits(&s("bob"), 1, &TransferPurpose::OpenDonate));
    assert!(c.transfer_fits(&s("carol"), u128::MAX, &TransferPurpose::OpenDonate));
    assert!(c.transfer_fits(&s("bob"), u128::MAX, &TransferPurpose::ProposalDonate(3)));
    let input = BountyInput {
        description: s("d"),
        token: s("token.near"),
        start_time: 0,
        duration: MIN_DURATION + 1,
        claimer: StringMap::new(),
    };
    assert!(c.transfer_fits(&s("bob"), 1, &TransferPurpose::CreateBounty(input)));
}

#[test]
fn votes_that_would_overflow_do_not_fit() {
    let mut c = ledger();
    c.internal_delegate(&s("alice"), u128::MAX - 1);
    c.add_proposal(&s("alice"), 0, poll()).unwrap();
    assert!(c.check_vote_fits(&s("alice"), 0));
    assert!(c.check_vote_fits(&s("alice"), 7));
    assert!(c.check_vote_fits(&s("nobody"), 0));
    c.vote(&s("alice"), 1, 0, &s("x")).unwrap();
    assert!(c.check_vote_fits(&s("alice"), 0));
    c.internal_undelegate(&s("alice"), u128::MAX - 1).unwrap();
    c.internal_delegate(&s("bob"), 2);
    assert!(!c.check_vote_fits(&s("bob"), 0));
    c.internal_undelegate(&s("bob"), 1).unwrap();
    assert!(c.check_vote_fits(&s("bob"), 0));
}

#[test]
fn tallies_are_held_against_votes() {
    let mut c = ledger();
    c.internal_delegate(&s("alice"), 10);
    c.internal_delegate(&s("bob"), 4);
    c.add_proposal(&s("alice"), 0, poll()).unwrap();
    assert!(c.proposal_is_well_formed(0));
    assert!(c.proposal_is_well_formed(9));
    c.vote(&s("alice"), 1, 0, &s("x")).unwrap();
    c.vote(&s("bob"), 1, 0, &s("x")).unwrap();
    assert!(c.proposal_is_well_formed(0));
    let mut p = connesus_dao::Proposal::from(c.proposals.remove(&0).unwrap());
    assert!(p.is_well_formed());
    assert_eq!(connesus_dao::tally::sum_of_votes(&p.votes), Some(14));
    assert_eq!(connesus_dao::tally::sum_of_votes_for(&p.votes, &s("x")), Some(14));
    assert_eq!(connesus_dao::tally::sum_of_votes_for(&p.votes, &s("y")), Some(0));

    p.total_delegation_amount = 13;
    assert!(!p.is_well_formed());
    p.total_delegation_amount = 14;
    assert!(p.is_well_formed());

    p.option_delegations.insert(s("x"), 13);
    assert!(!p.is_well_formed());
    p.option_delegations.insert(s("x"), 14);

    p.option_delegations.insert(s("y"), 0);
    assert!(!p.is_well_formed());
    p.option_delegations.remove(&s("y"));
    assert!(p.is_well_formed());

    p.votes.insert(s("carol"), connesus_dao::Vote { option: s("z"), delegations: 0 });
    assert!(!p.is_well_formed());
    p.votes.remove(&s("carol"));

    p.options.insert(
        s("y"),
        VoteOption { title: s("Y"), description: s("the second"), min_vote_weight: 0 },
    );
    p.votes.insert(s("carol"), connesus_dao::Vote { option: s("y"), delegations: 0 });
    assert!(p.is_well_formed());
    p.votes.insert(s("carol"), connesus_dao::Vote { option: s("y"), delegations: 1 });
    assert!(!p.is_well_formed());
    p.votes.remove(&s("carol"));
    assert!(p.is_well_formed());

    p.kind = ProposalKind::Donate;
    assert!(!p.is_well_formed());
}

#[test]
fn sums_of_votes_report_overflow() {
    let mut votes = StringMap::new();
    votes.insert(s("a"), connesus_dao::Vote { option: s("x"), delegations: u128::MAX });
    votes.insert(s("b"), connesus_dao::Vote { option: s("y"), delegations: 1 });
    assert_eq!(connesus_dao::tally::sum_of_votes(&votes), None);
    assert_eq!(connesus_dao::tally::sum_of_votes_for(&votes, &s("x")), Some(u128::MAX));
    votes.insert(s("c"), connesus_dao::Vote { option: s("x"), delegations: 1 });
    assert_eq!(connesus_dao::tally::sum_of_votes_for(&votes, &s("x")), None);
}
