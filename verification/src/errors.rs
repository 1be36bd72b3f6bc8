//! The failures that the ledger reports, and the classes they fall into.

use vstd::prelude::*;

verus! {

/// Why a call was rejected. A rejected call leaves the ledger as it was.
#[derive(Clone, Copy, Debug, PartialEq, Eq, Structural)]
pub enum DaoError {
    /// The caller lacks the role that the action asks for.
    Forbidden,
    /// A registration arrived without the exact storage deposit.
    WrongAmount,
    /// More weight was withdrawn than the account holds.
    InsufficientDelegation,
    /// A proposal's duration does not exceed the minimum.
    InvalidDuration,
    /// The voter has no delegation entry.
    NoDelegation,
    /// The voting window of the proposal has closed.
    ProposalExpired,
    /// The chosen option is not one of the proposal's options.
    InvalidOption,
    /// The proposal collects donations and takes no votes.
    NotVotable,
    /// The account already has a vote on the proposal.
    AlreadyVoted,
    /// The account has no vote on the proposal.
    DidNotVote,
    /// A bounty's duration does not exceed the minimum.
    DurationTooShort,
    /// The allotments of a bounty do not add up to the attached amount.
    AmountMismatch,
    /// No proposal or bounty has the given id.
    NotFound,
    /// The account has no allotment left in the bounty.
    NoAllotment,
    /// The claim window of the bounty has closed.
    ClaimWindowClosed,
    /// The bounty's window is still open, so the rest cannot be swept.
    NotYetExpired,
    /// The payload of a transfer notification could not be decoded.
    MalformedPayload,
    /// A donation was sent to a proposal that takes votes.
    WrongProposalKind,
}

/// The classes of failure.
#[derive(Clone, Copy, Debug, PartialEq, Eq, Structural)]
pub enum ErrorClass {
    Forbidden,
    NotFound,
    InvalidInput,
    AlreadyDone,
    WindowViolation,
    InsufficientBalance,
}

impl DaoError {
    /// The class that an error belongs to.
    pub open spec fn spec_class(self) -> ErrorClass {
        match self {
            DaoError::Forbidden => ErrorClass::Forbidden,
            DaoError::NotFound | DaoError::NoAllotment | DaoError::NoDelegation
            | DaoError::DidNotVote => ErrorClass::NotFound,
            DaoError::WrongAmount | DaoError::InvalidDuration | DaoError::InvalidOption
            | DaoError::NotVotable | DaoError::DurationTooShort | DaoError::AmountMismatch
            | DaoError::MalformedPayload | DaoError::WrongProposalKind => ErrorClass::InvalidInput,
            DaoError::AlreadyVoted => ErrorClass::AlreadyDone,
            DaoError::ProposalExpired | DaoError::ClaimWindowClosed | DaoError::NotYetExpired =>
                ErrorClass::WindowViolation,
            DaoError::InsufficientDelegation => ErrorClass::InsufficientBalance,
        }
    }

    #[verifier::when_used_as_spec(spec_class)]
    pub fn class(self) -> (c: ErrorClass)
        ensures
            c == self.spec_class(),
    {
        match self {
            DaoError::Forbidden => ErrorClass::Forbidden,
            DaoError::NotFound | DaoError::NoAllotment | DaoError::NoDelegation
            | DaoError::DidNotVote => ErrorClass::NotFound,
            DaoError::WrongAmount | DaoError::InvalidDuration | DaoError::InvalidOption
            | DaoError::NotVotable | DaoError::DurationTooShort | DaoError::AmountMismatch
            | DaoError::MalformedPayload | DaoError::WrongProposalKind => ErrorClass::InvalidInput,
            DaoError::AlreadyVoted => ErrorClass::AlreadyDone,
            DaoError::ProposalExpired | DaoError::ClaimWindowClosed | DaoError::NotYetExpired =>
                ErrorClass::WindowViolation,
            DaoError::InsufficientDelegation => ErrorClass::InsufficientBalance,
        }
    }
}

} // verus!
