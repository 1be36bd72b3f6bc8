use connesus_dao::factory::{
    dao_account_id, is_valid_dao_id, DaoArgs, DaoFactory, DaoMetadata, FactoryError,
};

fn s(text: &str) -> String {
    text.to_string()
}

fn args(symbol: &str) -> DaoArgs {
    DaoArgs {
        dao_contract_id: s("ignored"),
        metadata: DaoMetadata {
            name: s("Gardeners"),
            purpose: s("gardening"),
            thumbnail: s(""),
            symbol: s(symbol),
            facebook: None,
            youtube: None,
            twitter: None,
            discord: None,
            instagram: None,
        },
    }
}

#[test]
fn dao_ids_hold_digits_and_lower_case_letters() {
    assert!(is_valid_dao_id(&s("abc123")));
    assert!(is_valid_dao_id(&s("")));
    assert!(is_valid_dao_id(&s("z0")));
    assert!(!is_valid_dao_id(&s("Abc")));
    assert!(!is_valid_dao_id(&s("a-b")));
    assert!(!is_valid_dao_id(&s("a.b")));
    assert!(!is_valid_dao_id(&s("a b")));
    assert!(!is_valid_dao_id(&s("é")));
    assert!(!is_valid_dao_id(&s("a{")));
    assert!(!is_valid_dao_id(&s("a/")));
}

#[test]
fn account_is_lowered_symbol_below_factory() {
    assert_eq!(
        dao_account_id(&s("GaRden7"), &s("factory.near")),
        Ok((s("garden7"), s("garden7.factory.near")))
    );
}

#[test]
fn bad_symbols_and_accounts_are_rejected() {
    assert_eq!(dao_account_id(&s("gar-den"), &s("factory.near")), Err(FactoryError::InvalidSymbol));
    assert_eq!(dao_account_id(&s("gärten"), &s("factory.near")), Err(FactoryError::InvalidSymbol));
    assert_eq!(dao_account_id(&s(""), &s("factory.near")), Err(FactoryError::InvalidAccountId));
    assert_eq!(dao_account_id(&s("garden"), &s("Factory.near")), Err(FactoryError::InvalidAccountId));
    assert_eq!(dao_account_id(&s("garden"), &s("factory..near")), Err(FactoryError::InvalidAccountId));
    assert_eq!(dao_account_id(&s("garden"), &s("factory.near.")), Err(FactoryError::InvalidAccountId));
    assert_eq!(dao_account_id(&s("garden"), &s("")), Err(FactoryError::InvalidAccountId));
    let long = "a".repeat(58);
    assert_eq!(dao_account_id(&s("garden"), &long), Err(FactoryError::InvalidAccountId));
    let fits = "a".repeat(57);
    assert!(dao_account_id(&s("garden"), &fits).is_ok());
}

#[test]
fn min_attached_balance_formula() {
    assert_eq!(DaoFactory::get_min_attached_balance(1000, 50, 3), (1000 + 10000 + 100) * 3);
    assert_eq!(DaoFactory::get_min_attached_balance(0, 0, 1), 10000);
}

#[test]
fn first_deposit_pays_for_the_entry() {
    let mut f = DaoFactory::new(100);
    assert_eq!(f.storage_deposit(&s("alice"), 99), Err(FactoryError::DepositTooLow));
    assert_eq!(f.storage_deposits.get(&s("alice")), None);
    assert_eq!(f.storage_deposit(&s("alice"), 150), Ok(()));
    assert_eq!(f.storage_deposits.get(&s("alice")), Some(&50));
    assert_eq!(f.storage_deposit(&s("alice"), 20), Ok(()));
    assert_eq!(f.storage_deposits.get(&s("alice")), Some(&70));
}

#[test]
fn required_deposit() {
    let mut f = DaoFactory::new(100);
    assert_eq!(f.get_required_deposit(500, &s("alice")), 600);
    f.storage_deposit(&s("alice"), 300).unwrap();
    assert_eq!(f.get_required_deposit(500, &s("alice")), 300);
    assert_eq!(f.get_required_deposit(150, &s("alice")), 0);
}

#[test]
fn create_dao_books_the_deposit_and_the_record() {
    let mut f = DaoFactory::new(100);
    assert_eq!(
        f.create_dao(&s("alice"), &s("factory.near"), 700, args("Garden"), 500),
        Ok(s("garden.factory.near"))
    );
    assert_eq!(f.storage_deposits.get(&s("alice")), Some(&100));
    assert_eq!(f.get_number_of_daos(), 1);
    assert_eq!(f.get_dao(&s("garden")).unwrap().metadata.name, "Gardeners");
    assert!(f.get_dao(&s("Garden")).is_none());
    assert_eq!(
        f.create_dao(&s("alice"), &s("factory.near"), 0, args("Pond"), 100),
        Ok(s("pond.factory.near"))
    );
    assert_eq!(f.storage_deposits.get(&s("alice")), Some(&0));
    let page = f.get_daos(0, 10);
    assert_eq!(page.iter().map(|a| a.metadata.symbol.clone()).collect::<Vec<_>>(), vec!["Garden", "Pond"]);
    assert_eq!(f.get_daos(1, 1).len(), 1);
    assert_eq!(f.get_daos(1, u64::MAX)[0].metadata.symbol, "Pond");
    assert_eq!(f.get_daos(2, 5).len(), 0);
}

#[test]
fn create_dao_failures_change_nothing() {
    let mut f = DaoFactory::new(100);
    assert_eq!(
        f.create_dao(&s("alice"), &s("factory.near"), 50, args("Garden"), 10),
        Err(FactoryError::DepositTooLow)
    );
    assert_eq!(
        f.create_dao(&s("alice"), &s("factory.near"), 700, args("Gar den"), 500),
        Err(FactoryError::InvalidSymbol)
    );
    assert_eq!(
        f.create_dao(&s("alice"), &s("factory_.near"), 700, args("Garden"), 500),
        Err(FactoryError::InvalidAccountId)
    );
    assert_eq!(
        f.create_dao(&s("alice"), &s("factory.near"), 700, args("Garden"), 601),
        Err(FactoryError::NotEnoughBalance)
    );
    assert_eq!(
        f.create_dao(&s("alice"), &s("factory.near"), 0, args("Garden"), 1),
        Err(FactoryError::NotEnoughBalance)
    );
    assert_eq!(f.storage_deposits.get(&s("alice")), None);
    assert_eq!(f.get_number_of_daos(), 0);
    f.create_dao(&s("alice"), &s("factory.near"), 700, args("Garden"), 500).unwrap();
    assert_eq!(
        f.create_dao(&s("bob"), &s("factory.near"), 700, args("GARDEN"), 500),
        Err(FactoryError::IdTaken)
    );
    assert_eq!(f.storage_deposits.get(&s("bob")), None);
    assert_eq!(f.get_number_of_daos(), 1);
}
