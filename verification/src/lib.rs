//! Governance ledger of a decentralized organization: delegated voting
//! weight, proposals and votes, donations, and time-boxed bounties.
//!
//! The ledger keeps no clock and sends no tokens. Every call that depends on
//! the caller or on the time takes them as arguments, and every call that
//! owes somebody tokens returns a [`types::TransferRequest`] for its caller to
//! carry out.

pub mod bounty;
pub mod contract;
pub mod delegation;
pub mod donations;
pub mod errors;
pub mod factory;
pub mod leaderboard;
pub mod proposals;
pub mod string_map;
pub mod sum;
pub mod tally;
pub mod types;
pub mod views;

pub use crate::bounty::{Bounty, BountyInput, VersionedBounty};
pub use crate::contract::{Contract, TransferArgs, TransferPurpose};
pub use crate::errors::{DaoError, ErrorClass};
pub use crate::leaderboard::ProposalDonateAsObject;
pub use crate::proposals::{
    Proposal, ProposalInput, ProposalKind, ProposalStatus, VersionedProposal, Vote, VoteKind,
    VoteOption,
};
pub use crate::string_map::StringMap;
pub use crate::types::{AccountId, Action, Balance, DaoMetadata, TransferRequest};
pub use crate::views::{
    BountyBaseInformation, BountyOutput, ProposalBaseInformation, ProposalOutput,
};
