//! Plain types and constants shared by the whole ledger.

use vstd::prelude::*;

verus! {

/// The name of an account.
pub type AccountId = String;

/// An amount of tokens.
pub type Balance = u128;

/// The deposit attached to an outbound token transfer.
pub const ONE_YOCTO_NEAR: u128 = 1;

/// The gas given to a single outbound token transfer.
pub const GAS_FOR_FT_TRANSFER: u64 = 10_000_000_000_000;

/// A proposal or a bounty must run for longer than this: two minutes, in
/// nanoseconds.
pub const MIN_DURATION: u64 = 120_000_000_000;

/// The number of bytes of storage that one delegation entry is paid for.
pub const DELEGATION_ENTRY_BYTES: u128 = 16;

/// The moment at which a window that opened at `start` and lasts `duration`
/// closes.
pub open spec fn window_end(start: u64, duration: u64) -> int {
    start + duration
}

/// Whether `now` lies before the end of the window.
pub fn before_end(now: u64, start: u64, duration: u64) -> (b: bool)
    ensures
        b == (now < window_end(start, duration)),
{
    match start.checked_add(duration) {
        Some(end) => now < end,
        None => true,
    }
}

/// Whether `now` lies after the end of the window.
pub fn after_end(now: u64, start: u64, duration: u64) -> (b: bool)
    ensures
        b == (now > window_end(start, duration)),
{
    match start.checked_add(duration) {
        Some(end) => now > end,
        None => false,
    }
}

/// What the organization says of itself.
pub struct DaoMetadata {
    /// Name of the organization.
    pub name: String,
    /// Purpose of the organization.
    pub purpose: String,
    /// A picture; nothing in the ledger reads it.
    pub thumbnail: String,
    pub symbol: String,
    pub facebook: Option<String>,
    pub twitter: Option<String>,
    pub discord: Option<String>,
    pub instagram: Option<String>,
}

/// `DaoMetadata` as contracts see it.
pub struct DaoMetadataView {
    pub name: Seq<char>,
    pub purpose: Seq<char>,
    pub thumbnail: Seq<char>,
    pub symbol: Seq<char>,
    pub facebook: Option<Seq<char>>,
    pub twitter: Option<Seq<char>>,
    pub discord: Option<Seq<char>>,
    pub instagram: Option<Seq<char>>,
}

/// The view of an optional string.
pub open spec fn opt_view(s: Option<String>) -> Option<Seq<char>> {
    match s {
        Some(x) => Some(x@),
        None => None,
    }
}

/// A copy of an optional string.
pub fn clone_opt(s: &Option<String>) -> (r: Option<String>)
    ensures
        opt_view(r) == opt_view(*s),
{
    match s {
        Some(x) => Some(x.clone()),
        None => None,
    }
}

impl View for DaoMetadata {
    type V = DaoMetadataView;

    open spec fn view(&self) -> DaoMetadataView {
        DaoMetadataView {
            name: self.name@,
            purpose: self.purpose@,
            thumbnail: self.thumbnail@,
            symbol: self.symbol@,
            facebook: opt_view(self.facebook),
            twitter: opt_view(self.twitter),
            discord: opt_view(self.discord),
            instagram: opt_view(self.instagram),
        }
    }
}

impl Clone for DaoMetadata {
    fn clone(&self) -> (r: Self)
        ensures
            r@ == self@,
    {
        DaoMetadata {
            name: self.name.clone(),
            purpose: self.purpose.clone(),
            thumbnail: self.thumbnail.clone(),
            symbol: self.symbol.clone(),
            facebook: clone_opt(&self.facebook),
            twitter: clone_opt(&self.twitter),
            discord: clone_opt(&self.discord),
            instagram: clone_opt(&self.instagram),
        }
    }
}

impl DaoMetadata {
    /// A small metadata record to try things out with.
    pub fn test_config() -> (m: Self)
        ensures
            m@ == (DaoMetadataView {
                name: "Test"@,
                purpose: "to test"@,
                thumbnail: ""@,
                symbol: ""@,
                facebook: None,
                twitter: None,
                discord: None,
                instagram: None,
            }),
    {
        DaoMetadata {
            name: "Test".to_owned(),
            purpose: "to test".to_owned(),
            thumbnail: "".to_owned(),
            symbol: "".to_owned(),
            facebook: None,
            twitter: None,
            discord: None,
            instagram: None,
        }
    }
}

/// What a member can do to a proposal.
pub enum Action {
    /// Cast or change a vote.
    Vote { option_id: String },
    /// Close the proposal.
    Finalize,
}

/// A token transfer that the ledger asks for after it has changed its own
/// books. Nothing in the ledger waits for it or learns whether it succeeded.
pub struct TransferRequest {
    /// The token contract that is asked to move the tokens.
    pub token: String,
    /// The account that receives them.
    pub receiver_id: String,
    pub amount: u128,
}

/// `TransferRequest` as contracts see it.
pub struct TransferRequestView {
    pub token: Seq<char>,
    pub receiver_id: Seq<char>,
    pub amount: u128,
}

impl View for TransferRequest {
    type V = TransferRequestView;

    open spec fn view(&self) -> TransferRequestView {
        TransferRequestView {
            token: self.token@,
            receiver_id: self.receiver_id@,
            amount: self.amount,
        }
    }
}

} // verus!
