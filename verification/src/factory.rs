//! The factory that sets organizations up: how their accounts are named, and
//! the deposits that pay for their storage.

use vstd::prelude::*;
use vstd::string::StringExecFns;
use vstd::utf8::encode_utf8;

use crate::leaderboard::window;
use crate::string_map::StringMap;
use crate::sum::amount;

verus! {

/// Bytes that every new organization needs beside its code and arguments.
pub const EXTRA_BYTES: usize = 10000;

/// Why the factory turned a call down.
#[derive(Clone, Copy, Debug, PartialEq, Eq, Structural)]
pub enum FactoryError {
    /// The first deposit of an account does not cover the cost of its entry.
    DepositTooLow,
    /// The symbol holds something else than digits and letters.
    InvalidSymbol,
    /// The name that the organization would get is no valid account name.
    InvalidAccountId,
    /// The deposit of the caller does not cover what the organization needs.
    NotEnoughBalance,
    /// An organization with this symbol exists already.
    IdTaken,
}

/// A digit or a lower-case letter.
pub open spec fn is_lower_alnum(b: u8) -> bool {
    (0x30 <= b <= 0x39) || (0x61 <= b <= 0x7a)
}

/// One of the separators `-`, `_` and `.`.
pub open spec fn is_separator(b: u8) -> bool {
    b == 0x2d || b == 0x5f || b == 0x2e
}

/// Nothing but digits and lower-case letters.
pub open spec fn valid_dao_id(id: Seq<u8>) -> bool {
    forall|i: int| 0 <= i < id.len() ==> is_lower_alnum(#[trigger] id[i])
}

/// The rule for account names: two to sixty-four bytes, each a digit, a
/// lower-case letter or a separator; no separator at either end, and no two
/// separators side by side.
pub open spec fn valid_account_id(id: Seq<u8>) -> bool {
    &&& 2 <= id.len() <= 64
    &&& forall|i: int| 0 <= i < id.len() ==> is_lower_alnum(#[trigger] id[i]) || is_separator(id[i])
    &&& !is_separator(id[0])
    &&& !is_separator(id[id.len() - 1])
    &&& forall|i: int|
        0 <= i < id.len() - 1 ==> !(is_separator(#[trigger] id[i]) && is_separator(id[i + 1]))
}

/// A letter in lower case; any other character as it is.
pub open spec fn ascii_lower(c: char) -> char {
    if 'A' <= c && c <= 'Z' {
        ((c as u32) + 32) as char
    } else {
        c
    }
}

/// A string with its letters `A` to `Z` in lower case.
pub open spec fn lowered(s: Seq<char>) -> Seq<char> {
    s.map_values(|c: char| ascii_lower(c))
}

/// Whether the symbol of an organization can be its id: it holds digits and
/// lower-case letters only.
pub fn is_valid_dao_id(dao_id: &String) -> (b: bool)
    ensures
        b == valid_dao_id(encode_utf8(dao_id@)),
{
    let bytes = dao_id.as_str().as_bytes();
    let mut i: usize = 0;
    while i < bytes.len()
        invariant
            i <= bytes.len(),
            bytes@ == encode_utf8(dao_id@),
            forall|j: int| 0 <= j < i ==> is_lower_alnum(#[trigger] bytes@[j]),
        decreases bytes.len() - i,
    {
        let c = bytes[i];
        if !((0x30 <= c && c <= 0x39) || (0x61 <= c && c <= 0x7a)) {
            return false;
        }
        i += 1;
    }
    true
}

/// `near_sdk::env::is_valid_account_id`: whether the bytes are a valid
/// account name. The contract states the rule that the function checks byte
/// by byte.
#[verifier::external_body]
fn is_valid_account_id(account_id: &[u8]) -> (b: bool)
    ensures
        b == valid_account_id(account_id@),
{
    near_sdk::env::is_valid_account_id(account_id)
}

/// `str::to_ascii_lowercase`: a copy of the string with the letters `A` to
/// `Z` in lower case and every other character unchanged.
#[verifier::external_body]
fn to_ascii_lowercase(s: &String) -> (r: String)
    ensures
        r@ == lowered(s@),
{
    s.to_ascii_lowercase()
}

/// The id of an organization with the given symbol, and the account that it
/// gets below the account of the factory: the symbol in lower case, a dot,
/// and the factory's account.
pub fn dao_account_id(symbol: &String, factory_account: &String) -> (r: Result<
    (String, String),
    FactoryError,
>)
    ensures
        match r {
            Ok((dao_id, account)) => dao_id@ == lowered(symbol@) && account@ == lowered(symbol@)
                + "."@ + factory_account@ && valid_dao_id(encode_utf8(dao_id@))
                && valid_account_id(encode_utf8(account@)),
            Err(e) => if !valid_dao_id(encode_utf8(lowered(symbol@))) {
                e == FactoryError::InvalidSymbol
            } else {
                e == FactoryError::InvalidAccountId && !valid_account_id(
                    encode_utf8(lowered(symbol@) + "."@ + factory_account@),
                )
            },
        },
{
    let dao_id = to_ascii_lowercase(symbol);
    if !is_valid_dao_id(&dao_id) {
        return Err(FactoryError::InvalidSymbol);
    }
    let account = dao_id.clone().concat(".").concat(factory_account.as_str());
    if !is_valid_account_id(account.as_str().as_bytes()) {
        return Err(FactoryError::InvalidAccountId);
    }
    Ok((dao_id, account))
}

/// What the organization says of itself when it is set up.
pub struct DaoMetadata {
    pub name: String,
    pub purpose: String,
    pub thumbnail: String,
    pub symbol: String,
    pub facebook: Option<String>,
    pub youtube: Option<String>,
    pub twitter: Option<String>,
    pub discord: Option<String>,
    pub instagram: Option<String>,
}

/// What the factory is handed to set an organization up.
pub struct DaoArgs {
    pub dao_contract_id: String,
    pub metadata: DaoMetadata,
}

/// `DaoArgs` as contracts see it: the account and the symbol. Nothing in
/// the factory reads the rest.
pub struct DaoArgsView {
    pub dao_contract_id: Seq<char>,
    pub symbol: Seq<char>,
}

impl View for DaoArgs {
    type V = DaoArgsView;

    open spec fn view(&self) -> DaoArgsView {
        DaoArgsView { dao_contract_id: self.dao_contract_id@, symbol: self.metadata.symbol@ }
    }
}

/// The books of the factory.
pub struct DaoFactory {
    /// The organizations that were set up, by id.
    pub daos: StringMap<DaoArgs>,
    /// What each account has deposited and not yet used.
    pub storage_deposits: StringMap<u128>,
    /// What the entry of one account in `storage_deposits` costs.
    pub storage_balance_cost: u128,
}

/// The factory as contracts see it.
pub struct DaoFactoryView {
    pub daos: Map<Seq<char>, DaoArgsView>,
    pub storage_deposits: Map<Seq<char>, u128>,
    pub storage_balance_cost: u128,
}

impl View for DaoFactory {
    type V = DaoFactoryView;

    open spec fn view(&self) -> DaoFactoryView {
        DaoFactoryView {
            daos: self.daos@,
            storage_deposits: self.storage_deposits@,
            storage_balance_cost: self.storage_balance_cost,
        }
    }
}

impl DaoFactoryView {
    /// What a deposit of `deposit` leaves the account with, unless it is a
    /// first deposit that does not cover the cost of the entry.
    pub open spec fn balance_after_deposit(self, account: Seq<char>, deposit: u128) -> Option<int> {
        if self.storage_deposits.contains_key(account) {
            Some(self.storage_deposits[account] + deposit)
        } else if deposit >= self.storage_balance_cost {
            Some(deposit - self.storage_balance_cost)
        } else {
            None
        }
    }

    /// What the caller of `create_dao` has to spend once the deposit that
    /// came with the call is counted; `None` where that deposit is a first
    /// one and too low.
    pub open spec fn balance_for_creation(self, caller: Seq<char>, attached_deposit: u128)
        -> Option<int> {
        if attached_deposit > 0 {
            self.balance_after_deposit(caller, attached_deposit)
        } else {
            Some(amount(self.storage_deposits, caller) as int)
        }
    }
}

impl DaoFactory {
    /// The books of a factory that has set up nothing yet.
    pub fn new(storage_balance_cost: u128) -> (f: Self)
        ensures
            f@ == (DaoFactoryView {
                daos: Map::empty(),
                storage_deposits: Map::empty(),
                storage_balance_cost,
            }),
    {
        DaoFactory {
            daos: StringMap::new(),
            storage_deposits: StringMap::new(),
            storage_balance_cost,
        }
    }

    /// What an organization needs for its storage: the price of its code,
    /// of its arguments twice over, and of `EXTRA_BYTES` more.
    pub fn get_min_attached_balance(code_len: usize, args_len: usize, price_per_byte: u128) -> (r:
        u128)
        requires
            (code_len + EXTRA_BYTES + args_len * 2) * price_per_byte <= u128::MAX,
        ensures
            r == (code_len + EXTRA_BYTES + args_len * 2) * price_per_byte,
    {
        let bytes: u128 = code_len as u128 + EXTRA_BYTES as u128 + (args_len as u128) * 2;
        bytes * price_per_byte
    }

    /// What the account still has to deposit before it can set up an
    /// organization that needs `args_deposit`.
    pub fn get_required_deposit(&self, args_deposit: u128, account_id: &String) -> (r: u128)
        requires
            !self@.storage_deposits.contains_key(account_id@) ==> self@.storage_balance_cost
                + args_deposit <= u128::MAX,
        ensures
            r == if self@.storage_deposits.contains_key(account_id@) {
                if args_deposit >= self@.storage_deposits[account_id@] {
                    args_deposit - self@.storage_deposits[account_id@]
                } else {
                    0
                }
            } else {
                self@.storage_balance_cost + args_deposit
            },
    {
        match self.storage_deposits.get(account_id) {
            Some(previous_balance) => args_deposit.saturating_sub(*previous_balance),
            None => self.storage_balance_cost + args_deposit,
        }
    }

    /// Books a deposit of the account. The first deposit of an account pays
    /// for its entry.
    pub fn storage_deposit(&mut self, account_id: &String, deposit: u128) -> (r: Result<
        (),
        FactoryError,
    >)
        requires
            amount(old(self)@.storage_deposits, account_id@) + deposit <= u128::MAX,
        ensures
            match old(self)@.balance_after_deposit(account_id@, deposit) {
                Some(balance) => r == Ok::<(), FactoryError>(())
                    && final(self)@ == (DaoFactoryView {
                    storage_deposits: old(self)@.storage_deposits.insert(
                        account_id@,
                        balance as u128,
                    ),
                    ..old(self)@
                }),
                None => r == Err::<(), FactoryError>(FactoryError::DepositTooLow) && final(self)@
                    == old(self)@,
            },
    {
        let balance: u128 = match self.storage_deposits.get(account_id) {
            Some(previous_balance) => *previous_balance + deposit,
            None => {
                if deposit < self.storage_balance_cost {
                    return Err(FactoryError::DepositTooLow);
                }
                deposit - self.storage_balance_cost
            },
        };
        self.storage_deposits.insert(account_id.clone(), balance);
        Ok(())
    }

    /// The number of organizations that were set up.
    pub fn get_number_of_daos(&self) -> (n: u64)
        ensures
            n == self.daos.entries().len(),
    {
        self.daos.len() as u64
    }

    /// A page of the organizations in the order in which they were set up:
    /// up to `limit` of them from the position `from_index` on.
    pub fn get_daos(&self, from_index: u64, limit: u64) -> (page: Vec<&DaoArgs>)
        ensures
            page@.map_values(|a: &DaoArgs| a@) == window(
                self.daos.entries(),
                from_index as int,
                limit as int,
            ).map_values(|e: (Seq<char>, DaoArgsView)| e.1),
    {
        let len = self.daos.len();
        let mut page: Vec<&DaoArgs> = Vec::new();
        let ghost all = self.daos.entries();
        let ghost shown = window(all, from_index as int, limit as int);
        if from_index >= len as u64 {
            assert(page@.map_values(|a: &DaoArgs| a@) == shown.map_values(
                |e: (Seq<char>, DaoArgsView)| e.1,
            ));
            return page;
        }
        let start = from_index as usize;
        let end: usize = match from_index.checked_add(limit) {
            Some(e) => if e < len as u64 {
                e as usize
            } else {
                len
            },
            None => len,
        };
        let mut i = start;
        while i < end
            invariant
                start <= i <= end <= len,
                len == all.len(),
                all == self.daos.entries(),
                shown == all.subrange(start as int, end as int),
                page@.len() == i - start,
                forall|k: int| 0 <= k < page@.len() ==> (#[trigger] page@[k])@ == all[start + k].1,
            decreases end - i,
        {
            match self.daos.entry(i) {
                Some((_, args)) => {
                    page.push(args);
                },
                None => {},
            }
            i += 1;
        }
        assert(page@.map_values(|a: &DaoArgs| a@) == shown.map_values(
            |e: (Seq<char>, DaoArgsView)| e.1,
        ));
        page
    }

    /// The account of the organization with the given id, if there is one.
    pub fn get_dao(&self, dao_id: &String) -> (r: Option<&DaoArgs>)
        ensures
            match r {
                Some(args) => self@.daos.contains_key(dao_id@) && args@ == self@.daos[dao_id@],
                None => !self@.daos.contains_key(dao_id@),
            },
    {
        self.daos.get(dao_id)
    }

    /// Books the setting up of an organization for `caller`: counts the
    /// deposit that came with the call, names the organization after its
    /// symbol, takes what it needs off the caller's deposit and records it.
    /// Returns the account that is to be created for it.
    pub fn create_dao(
        &mut self,
        caller: &String,
        factory_account: &String,
        attached_deposit: u128,
        args: DaoArgs,
        required_balance: u128,
    ) -> (r: Result<String, FactoryError>)
        requires
            amount(old(self)@.storage_deposits, caller@) + attached_deposit <= u128::MAX,
        ensures
            r is Err ==> final(self)@ == old(self)@,
            match r {
                Ok(account) => {
                    let id = lowered(args@.symbol);
                    &&& account@ == id + "."@ + factory_account@
                    &&& valid_dao_id(encode_utf8(id))
                    &&& valid_account_id(encode_utf8(account@))
                    &&& !old(self)@.daos.contains_key(id)
                    &&& old(self)@.balance_for_creation(caller@, attached_deposit) matches Some(
                        balance,
                    ) && balance >= required_balance && final(self)@ == (DaoFactoryView {
                        daos: old(self)@.daos.insert(id, args@),
                        storage_deposits: old(self)@.storage_deposits.insert(
                            caller@,
                            (balance - required_balance) as u128,
                        ),
                        ..old(self)@
                    })
                },
                Err(e) => {
                    let id = lowered(args@.symbol);
                    if old(self)@.balance_for_creation(caller@, attached_deposit) is None {
                        e == FactoryError::DepositTooLow
                    } else if !valid_dao_id(encode_utf8(id)) {
                        e == FactoryError::InvalidSymbol
                    } else if !valid_account_id(encode_utf8(id + "."@ + factory_account@)) {
                        e == FactoryError::InvalidAccountId
                    } else if old(self)@.balance_for_creation(caller@, attached_deposit)->Some_0
                        < required_balance {
                        e == FactoryError::NotEnoughBalance
                    } else {
                        e == FactoryError::IdTaken && old(self)@.daos.contains_key(id)
                    }
                },
            },
    {
        let previous: u128 = match self.storage_deposits.get(caller) {
            Some(b) => *b,
            None => 0,
        };
        let user_balance: u128 = if attached_deposit > 0 {
            if self.storage_deposits.contains_key(caller) {
                previous + attached_deposit
            } else if attached_deposit >= self.storage_balance_cost {
                attached_deposit - self.storage_balance_cost
            } else {
                return Err(FactoryError::DepositTooLow);
            }
        } else {
            previous
        };
        let (dao_id, account) = match dao_account_id(&args.metadata.symbol, factory_account) {
            Ok(names) => names,
            Err(e) => {
                return Err(e);
            },
        };
        if user_balance < required_balance {
            return Err(FactoryError::NotEnoughBalance);
        }
        if self.daos.contains_key(&dao_id) {
            return Err(FactoryError::IdTaken);
        }
        self.storage_deposits.insert(caller.clone(), user_balance - required_balance);
        self.daos.insert(dao_id, args);
        Ok(account)
    }
}

} // verus!
