//! The plain data that the voting engine stores, takes and hands back.

use vstd::prelude::*;

verus! {

/// Identifies an account of the token ledger.
pub type AccountId = u64;

/// An amount of tokens, and also a number of votes.
pub type Balance = u64;

/// Identifies a proposal. Ids are handed out in order, starting at 0.
pub type ProposalId = u32;

/// A point in time, counted in blocks.
pub type BlockNumber = u64;

/// The Blake2b-256 digest of a proposal's text.
pub type DescriptionHash = [u8; 32];

/// The greatest number of votes that one account can have active at a time,
/// each on a different proposal.
pub const MAX_VOTES: u32 = 100;

/// Who asks for an operation.
#[derive(Clone, Copy, Debug, PartialEq, Eq, Structural)]
pub enum RawOrigin {
    /// The system itself: the only origin that may register voters.
    Root,
    /// A transaction signed by the given account.
    Signed(AccountId),
    /// Signed by nobody.
    Unsigned,
    /// Signed by nobody, but authorized by the runtime.
    Authorized,
}

/// A proposal and the votes cast on it so far.
#[derive(Clone, Copy, Debug, PartialEq, Eq)]
pub struct Proposal {
    /// Digest of the proposal's text. Stored, never interpreted.
    pub description: DescriptionHash,
    /// The block in which the proposal was made.
    pub start_block: BlockNumber,
    /// Votes in approval.
    pub ayes: Balance,
    /// Votes in rejection.
    pub nays: Balance,
    /// Whether voting has ended. Once set it stays set.
    pub end: bool,
}

/// One account's vote on one proposal.
#[derive(Clone, Copy, Debug, PartialEq, Eq, Structural)]
pub struct UserVoteInfo {
    pub proposal_id: ProposalId,
    pub aye: bool,
    pub votes: Balance,
}

/// Why tokens are frozen. This engine freezes for one reason only.
#[derive(Clone, Copy, Debug, PartialEq, Eq, Structural)]
pub enum FreezeReason {
    AccountDeposit,
}

/// What a successful operation did.
#[derive(Clone, Copy, Debug, PartialEq, Eq, Structural)]
pub enum Event {
    /// Voter registered.
    VoterRegistered { voter: AccountId },
    /// Proposal was successfully created.
    ProposalCreated { proposal_id: ProposalId },
    /// Vote successfully added.
    VoteAddedTo { proposal_id: ProposalId, votes: Balance },
    /// Vote has finished. The proposal was accepted.
    ProposalResultAye { proposal_id: ProposalId },
    /// Vote has finished. The proposal was rejected.
    ProposalResultNay { proposal_id: ProposalId },
    /// Vote has finished in a tie.
    ProposalResultTie { proposal_id: ProposalId },
    /// Tokens have been unlocked.
    TokensUnlocked,
    /// The claimed proposal is not the account's highest-numbered vote:
    /// nothing unlocked.
    NoTokensUnlocked,
    /// Vote removed from the proposal by casting zero votes.
    VoteRemovedOrCancelled { proposal_id: ProposalId },
}

/// Why an operation was refused. A refused operation changes nothing.
#[derive(Clone, Copy, Debug, PartialEq, Eq, Structural)]
pub enum Error {
    /// The origin may not ask for this operation.
    BadOrigin,
    /// No proposal with the provided id exists.
    ProposalDoesNotExist,
    /// The account is not a registered voter.
    NotRegistered,
    /// A tally, a cost or a deadline does not fit its type.
    Overflow,
    /// A tally would drop below zero.
    Underflow,
    /// No proposal id is left to hand out.
    IdOverflow,
    /// Insufficient funds to cast that many votes.
    InsufficientFunds,
    /// Too many votes on too many proposals for this account.
    TooManyVotes,
    /// Voting period is not over. Vote is still in progress.
    VotingPeriodNotOver,
    /// Vote has already ended.
    VoteAlreadyEnded,
    /// Voter already registered.
    VoterAlreadyRegistered,
    /// The account has no active votes.
    NoVotes,
}

impl Proposal {
    /// The votes cast so far in direction `aye`.
    pub open spec fn tally(self, aye: bool) -> Balance {
        if aye {
            self.ayes
        } else {
            self.nays
        }
    }

    /// The proposal with the tally of direction `aye` set to `amount`.
    pub open spec fn with_tally(self, aye: bool, amount: Balance) -> Proposal {
        if aye {
            Proposal { ayes: amount, ..self }
        } else {
            Proposal { nays: amount, ..self }
        }
    }

    /// The proposal with `votes` more votes in direction `aye`.
    pub open spec fn with_votes_added(self, aye: bool, votes: Balance) -> Proposal {
        self.with_tally(aye, (self.tally(aye) + votes) as Balance)
    }

    /// The proposal with `votes` fewer votes in direction `aye`.
    pub open spec fn with_votes_removed(self, aye: bool, votes: Balance) -> Proposal {
        self.with_tally(aye, (self.tally(aye) - votes) as Balance)
    }

    /// The proposal once voting on it has ended.
    pub open spec fn ended(self) -> Proposal {
        Proposal { end: true, ..self }
    }

    /// How the vote went, by the tallies as they stand: accepted with more
    /// ayes than nays, rejected with fewer, else a tie.
    pub open spec fn outcome(self, proposal_id: ProposalId) -> Event {
        if self.ayes > self.nays {
            Event::ProposalResultAye { proposal_id }
        } else if self.ayes < self.nays {
            Event::ProposalResultNay { proposal_id }
        } else {
            Event::ProposalResultTie { proposal_id }
        }
    }
}

/// A block number as an amount, so that the two compare and add.
pub open spec fn block_number_as_balance(block_number: BlockNumber) -> Balance {
    block_number
}

/// The tokens that `votes` votes on one proposal keep frozen: their square.
pub open spec fn cost(votes: Balance) -> int {
    votes * votes
}

/// The cost of `votes` votes, or `None` where it exceeds every balance.
pub fn required_tokens(votes: Balance) -> (r: Option<Balance>)
    ensures
        cost(votes) <= Balance::MAX ==> r == Some(cost(votes) as Balance),
        cost(votes) > Balance::MAX ==> r is None,
{
    votes.checked_mul(votes)
}

/// The id that follows `proposal_id`; `IdOverflow` where there is none.
pub fn next_proposal_id(proposal_id: ProposalId) -> (r: Result<ProposalId, Error>)
    ensures
        r == if proposal_id == ProposalId::MAX {
            Err::<ProposalId, Error>(Error::IdOverflow)
        } else {
            Ok((proposal_id + 1) as ProposalId)
        },
{
    match proposal_id.checked_add(1) {
        Some(next) => Ok(next),
        None => Err(Error::IdOverflow),
    }
}

/// The account that signed, if the origin is a signed transaction.
pub open spec fn signer(origin: RawOrigin) -> Option<AccountId> {
    match origin {
        RawOrigin::Signed(who) => Some(who),
        _ => None,
    }
}

/// Admits signed transactions only and tells who signed.
pub fn ensure_signed(origin: RawOrigin) -> (r: Result<AccountId, Error>)
    ensures
        r == match signer(origin) {
            Some(who) => Ok::<AccountId, Error>(who),
            None => Err(Error::BadOrigin),
        },
{
    match origin {
        RawOrigin::Signed(who) => Ok(who),
        _ => Err(Error::BadOrigin),
    }
}

/// Admits the root origin only.
pub fn ensure_root(origin: RawOrigin) -> (r: Result<(), Error>)
    ensures
        r == if origin == RawOrigin::Root {
            Ok::<(), Error>(())
        } else {
            Err(Error::BadOrigin)
        },
{
    match origin {
        RawOrigin::Root => Ok(()),
        _ => Err(Error::BadOrigin),
    }
}

} // verus!
