use connesus_dao::{Contract, DaoError, DaoMetadata, StringMap, TransferArgs, TransferPurpose};

fn s(text: &str) -> String {
    text.to_string()
}

fn ledger() -> Contract {
    Contract::new(DaoMetadata::test_config(), s("token.near"), s("owner.near"))
}

#[test]
fn new_ledger_is_empty() {
    let c = ledger();
    assert_eq!(c.delegation_total_supply(), 0);
    assert_eq!(c.get_last_proposal_id(), 0);
    assert_eq!(c.get_last_bounty_id(), 0);
    assert_eq!(c.locked_amount, 0);
    assert_eq!(c.get_owner(), "owner.near");
    assert_eq!(c.get_metadata().name, "Test");
    assert_eq!(c.get_metadata().purpose, "to test");
    assert_eq!(c.get_donation_balance(&s("alice")), None);
    assert_eq!(c.token_account(), "token.near");
}

#[test]
fn delegate_adds_to_account_and_total() {
    let mut c = ledger();
    c.internal_delegate(&s("alice"), 30);
    c.internal_delegate(&s("bob"), 12);
    c.internal_delegate(&s("alice"), 5);
    assert_eq!(c.get_user_weight(&s("alice")), 35);
    assert_eq!(c.get_user_weight(&s("bob")), 12);
    assert_eq!(c.get_user_weight(&s("carol")), 0);
    assert_eq!(c.delegation_total_supply(), 47);
    assert_eq!(c.delegation_balance_ratio(&s("alice")), (35, 47));
}

#[test]
fn total_is_sum_of_balances_after_each_step() {
    let mut c = ledger();
    let names = ["alice", "bob", "carol"];
    let steps: [(usize, u128, bool); 6] =
        [(0, 10, true), (1, 7, true), (0, 4, false), (2, 9, true), (1, 7, false), (0, 6, false)];
    for (who, amount, delegate) in steps {
        if delegate {
            c.internal_delegate(&s(names[who]), amount);
        } else {
            assert_eq!(c.internal_undelegate(&s(names[who]), amount), Ok(()));
        }
        let sum: u128 = names.iter().map(|n| c.get_user_weight(&s(n))).sum();
        assert_eq!(c.delegation_total_supply(), sum);
        assert_eq!(c.delegations.checked_sum(), Some(sum));
    }
    assert_eq!(c.delegation_total_supply(), 9);
}

#[test]
fn reduce_fails_beyond_balance() {
    let mut c = ledger();
    c.internal_delegate(&s("alice"), 10);
    assert_eq!(
        c.internal_reduce_delegation(&s("alice"), 11),
        Err(DaoError::InsufficientDelegation)
    );
    assert_eq!(c.get_user_weight(&s("alice")), 10);
    assert_eq!(c.internal_reduce_delegation(&s("alice"), 4), Ok(()));
    assert_eq!(c.get_user_weight(&s("alice")), 6);
    assert_eq!(c.delegation_total_supply(), 10);
}

#[test]
fn undelegate_fails_beyond_balance_and_changes_nothing() {
    let mut c = ledger();
    c.internal_delegate(&s("alice"), 10);
    assert_eq!(c.internal_undelegate(&s("bob"), 1), Err(DaoError::InsufficientDelegation));
    assert_eq!(c.internal_undelegate(&s("alice"), 11), Err(DaoError::InsufficientDelegation));
    assert_eq!(c.get_user_weight(&s("alice")), 10);
    assert_eq!(c.delegation_total_supply(), 10);
}

#[test]
fn withdraw_asks_for_transfer_back_to_caller() {
    let mut c = ledger();
    c.internal_delegate(&s("alice"), 10);
    let request = c.withdraw(&s("alice"), 4).unwrap();
    assert_eq!(request.token, "token.near");
    assert_eq!(request.receiver_id, "alice");
    assert_eq!(request.amount, 4);
    assert_eq!(c.get_user_weight(&s("alice")), 6);
    assert_eq!(c.delegation_total_supply(), 6);
    assert!(matches!(c.withdraw(&s("alice"), 7), Err(DaoError::InsufficientDelegation)));
    assert_eq!(c.delegation_total_supply(), 6);
}

#[test]
fn register_needs_token_contract_and_exact_deposit() {
    let mut c = ledger();
    assert_eq!(
        c.register_delegation(&s("mallory"), &s("alice"), 160, 10),
        Err(DaoError::Forbidden)
    );
    assert_eq!(
        c.register_delegation(&s("token.near"), &s("alice"), 159, 10),
        Err(DaoError::WrongAmount)
    );
    assert_eq!(
        c.register_delegation(&s("token.near"), &s("alice"), 160, u128::MAX),
        Err(DaoError::WrongAmount)
    );
    assert!(!c.delegations.contains_key(&s("alice")));
    assert_eq!(c.register_delegation(&s("token.near"), &s("alice"), 160, 10), Ok(()));
    assert_eq!(c.delegations.get(&s("alice")), Some(&0));
    assert_eq!(c.delegation_total_supply(), 0);
}

#[test]
fn open_donations_add_up() {
    let mut c = ledger();
    c.open_donate(&s("alice"), 5);
    c.open_donate(&s("alice"), 7);
    c.open_donate(&s("bob"), 1);
    assert_eq!(c.get_donation_balance(&s("alice")), Some(12));
    assert_eq!(c.get_donation_balance(&s("bob")), Some(1));
    assert_eq!(c.get_donation_balance(&s("carol")), None);
}

#[test]
fn transfer_with_delegate_purpose_locks_the_amount() {
    let mut c = ledger();
    let args = TransferArgs { purpose: TransferPurpose::Delegate(s("bob")) };
    assert_eq!(c.ft_on_transfer(&s("token.near"), &s("alice"), 25, Some(args)), Ok(0));
    assert_eq!(c.get_user_weight(&s("bob")), 25);
    assert_eq!(c.get_user_weight(&s("alice")), 0);
    assert_eq!(c.delegation_total_supply(), 25);
    assert_eq!(c.locked_amount, 25);
}

#[test]
fn transfer_from_another_contract_is_forbidden() {
    let mut c = ledger();
    let args = TransferArgs { purpose: TransferPurpose::Delegate(s("bob")) };
    assert_eq!(
        c.ft_on_transfer(&s("other.near"), &s("alice"), 25, Some(args)),
        Err(DaoError::Forbidden)
    );
    let args = TransferArgs { purpose: TransferPurpose::OpenDonate };
    assert_eq!(
        c.ft_on_transfer(&s("other.near"), &s("alice"), 25, Some(args)),
        Err(DaoError::Forbidden)
    );
    assert_eq!(c.delegation_total_supply(), 0);
    assert_eq!(c.locked_amount, 0);
    assert_eq!(c.get_donation_balance(&s("alice")), None);
}

#[test]
fn transfer_with_undecoded_payload_is_malformed() {
    let mut c = ledger();
    assert_eq!(
        c.ft_on_transfer(&s("token.near"), &s("alice"), 25, None),
        Err(DaoError::MalformedPayload)
    );
    assert_eq!(c.delegation_total_supply(), 0);
}

#[test]
fn transfer_with_open_donate_purpose_credits_the_sender() {
    let mut c = ledger();
    let args = TransferArgs { purpose: TransferPurpose::OpenDonate };
    assert_eq!(c.ft_on_transfer(&s("token.near"), &s("alice"), 25, Some(args)), Ok(0));
    let args = TransferArgs { purpose: TransferPurpose::OpenDonate };
    assert_eq!(c.ft_on_transfer(&s("token.near"), &s("alice"), 5, Some(args)), Ok(0));
    assert_eq!(c.get_donation_balance(&s("alice")), Some(30));
    assert_eq!(c.locked_amount, 0);
}

#[test]
fn treasury_accounting() {
    let mut c = ledger();
    let args = TransferArgs { purpose: TransferPurpose::Delegate(s("bob")) };
    assert_eq!(c.ft_on_transfer(&s("token.near"), &s("alice"), 25, Some(args)), Ok(0));
    assert_eq!(c.get_locked_storage_amount(10, 100), 1000);
    assert_eq!(c.get_available_amount(5000, 10, 100), 3975);
}

#[test]
fn string_map_keeps_first_insertion_order() {
    let mut m: StringMap<u128> = StringMap::new();
    assert_eq!(m.insert(s("b"), 2), None);
    assert_eq!(m.insert(s("a"), 1), None);
    assert_eq!(m.insert(s("b"), 5), Some(2));
    assert_eq!(m.len(), 2);
    assert_eq!(m.entry(0), Some((&s("b"), &5)));
    assert_eq!(m.entry(1), Some((&s("a"), &1)));
    assert_eq!(m.entry(2), None);
    assert_eq!(m.checked_sum(), Some(6));
    assert_eq!(m.remove(&s("b")), Some(5));
    assert_eq!(m.remove(&s("b")), None);
    assert_eq!(m.get(&s("a")), Some(&1));
    assert!(!m.contains_key(&s("b")));
    let copy = m.duplicate();
    assert_eq!(copy.len(), 1);
    assert_eq!(copy.get(&s("a")), Some(&1));
}

#[test]
fn string_map_sum_overflow_is_reported() {
    let mut m: StringMap<u128> = StringMap::new();
    m.insert(s("a"), u128::MAX);
    m.insert(s("b"), 1);
    assert_eq!(m.checked_sum(), None);
}
