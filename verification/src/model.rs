//! The voting engine as mathematics: what it holds, and for each operation
//! what it answers and what it holds afterwards.

use crate::balances::Balances;
use crate::history::{costs_fit, find_vote, latest_vote, max_cost};
use crate::types::{
    block_number_as_balance, cost, signer, AccountId, Balance, BlockNumber, DescriptionHash,
    Error, Event, Proposal, ProposalId, RawOrigin, UserVoteInfo, MAX_VOTES,
};
use vstd::prelude::*;

verus! {

/// Everything the engine holds.
#[verifier::ext_equal]
pub struct State {
    /// The accounts that may propose and vote.
    pub registered: Set<AccountId>,
    /// The id that the next proposal gets.
    pub proposal_index: ProposalId,
    /// Every proposal made so far, open or closed, by its id.
    pub proposals: Map<ProposalId, Proposal>,
    /// The active votes of each account that ever had one, in the order in
    /// which they were first cast.
    pub histories: Map<AccountId, Seq<UserVoteInfo>>,
    /// The token ledger.
    pub balances: Balances,
    /// The current block.
    pub block_number: BlockNumber,
    /// For how many blocks a proposal stays open at least.
    pub proposal_duration: BlockNumber,
}

impl State {
    /// The engine before anything has happened, in block 0.
    pub open spec fn initial(proposal_duration: BlockNumber) -> State {
        State {
            registered: Set::empty(),
            proposal_index: 0,
            proposals: Map::empty(),
            histories: Map::empty(),
            balances: Balances { total: Map::empty(), frozen: Map::empty() },
            block_number: 0,
            proposal_duration,
        }
    }

    /// The active votes of `who`; none for an account that never voted.
    pub open spec fn history_of(self, who: AccountId) -> Seq<UserVoteInfo> {
        if self.histories.contains_key(who) {
            self.histories[who]
        } else {
            Seq::empty()
        }
    }

    /// The tokens of `who` that are frozen.
    pub open spec fn frozen_of(self, who: AccountId) -> Balance {
        self.balances.frozen_of(who)
    }

    /// The same engine with the proposal `proposal_id` replaced.
    pub open spec fn with_proposal(self, proposal_id: ProposalId, proposal: Proposal) -> State {
        State { proposals: self.proposals.insert(proposal_id, proposal), ..self }
    }

    /// The same engine with the active votes of `who` replaced.
    pub open spec fn with_history(self, who: AccountId, history: Seq<UserVoteInfo>) -> State {
        State { histories: self.histories.insert(who, history), ..self }
    }

    /// The same engine with another id for the next proposal.
    pub open spec fn with_proposal_index(self, proposal_index: ProposalId) -> State {
        State { proposal_index, ..self }
    }

    /// The same engine with the freeze of `who` set to `amount`.
    pub open spec fn with_freeze(self, who: AccountId, amount: Balance) -> State {
        State { balances: self.balances.with_freeze(who, amount), ..self }
    }

    /// The same engine in a later or earlier block.
    pub open spec fn at_block(self, block_number: BlockNumber) -> State {
        State { block_number, ..self }
    }

    /// The same engine after `amount` new tokens were given to `who`.
    pub open spec fn minted(self, who: AccountId, amount: Balance) -> State {
        State { balances: self.balances.minted(who, amount), ..self }
    }

    /// What registering `voter` answers: only the root origin may ask, and an
    /// account is registered once.
    pub open spec fn register_voters_result(self, origin: RawOrigin, voter: AccountId) -> Result<
        Event,
        Error,
    > {
        if origin != RawOrigin::Root {
            Err(Error::BadOrigin)
        } else if self.registered.contains(voter) {
            Err(Error::VoterAlreadyRegistered)
        } else {
            Ok(Event::VoterRegistered { voter })
        }
    }

    /// The engine once `voter` is registered; unchanged where that is refused.
    pub open spec fn register_voters_next(self, origin: RawOrigin, voter: AccountId) -> State {
        if self.register_voters_result(origin, voter) is Ok {
            State { registered: self.registered.insert(voter), ..self }
        } else {
            self
        }
    }

    /// The id that a new proposal gets. The greatest id is never handed out.
    pub open spec fn create_proposal_result(self) -> Result<ProposalId, Error> {
        if self.proposal_index == ProposalId::MAX {
            Err(Error::IdOverflow)
        } else {
            Ok(self.proposal_index)
        }
    }

    /// The engine once a proposal with the digest `description` is stored:
    /// open, without votes, made in the current block.
    pub open spec fn create_proposal_next(self, description: DescriptionHash) -> State {
        if self.create_proposal_result() is Ok {
            State {
                proposal_index: (self.proposal_index + 1) as ProposalId,
                proposals: self.proposals.insert(
                    self.proposal_index,
                    Proposal {
                        description,
                        start_block: self.block_number,
                        ayes: 0,
                        nays: 0,
                        end: false,
                    },
                ),
                ..self
            }
        } else {
            self
        }
    }

    /// What making a proposal answers: the origin must be a registered voter,
    /// and an id must be left.
    pub open spec fn make_proposal_result(self, origin: RawOrigin) -> Result<Event, Error> {
        match signer(origin) {
            None => Err(Error::BadOrigin),
            Some(who) => if !self.registered.contains(who) {
                Err(Error::NotRegistered)
            } else {
                match self.create_proposal_result() {
                    Ok(proposal_id) => Ok(Event::ProposalCreated { proposal_id }),
                    Err(e) => Err(e),
                }
            },
        }
    }

    /// The engine once the origin has made a proposal with the digest
    /// `description`; unchanged where that is refused.
    pub open spec fn make_proposal_next(self, origin: RawOrigin, description: DescriptionHash)
        -> State {
        if self.make_proposal_result(origin) is Ok {
            self.create_proposal_next(description)
        } else {
            self
        }
    }

    /// Whether `who` has room for one more active vote.
    pub open spec fn freeze_result(self, who: AccountId) -> Result<(), Error> {
        if self.history_of(who).len() >= MAX_VOTES {
            Err(Error::TooManyVotes)
        } else {
            Ok(())
        }
    }

    /// The engine once `vote` is added to the active votes of `who`: the
    /// freeze is raised to `required_tokens` where it was lower, and is never
    /// lowered.
    pub open spec fn freeze_next(self, who: AccountId, vote: UserVoteInfo, required_tokens: Balance)
        -> State {
        if self.freeze_result(who) is Ok {
            State {
                histories: self.histories.insert(who, self.history_of(who).push(vote)),
                balances: if required_tokens > self.frozen_of(who) {
                    self.balances.with_freeze(who, required_tokens)
                } else {
                    self.balances
                },
                ..self
            }
        } else {
            self
        }
    }

    /// Whether the freeze that the votes `history` ask for can be computed.
    pub open spec fn unfreeze_result(history: Seq<UserVoteInfo>) -> Result<(), Error> {
        if costs_fit(history) {
            Ok(())
        } else {
            Err(Error::Overflow)
        }
    }

    /// The engine once the freeze of `who` is set to what the votes `history`
    /// ask for: the cost of the costliest, and no freeze where there is none.
    pub open spec fn unfreeze_next(self, who: AccountId, history: Seq<UserVoteInfo>) -> State {
        if State::unfreeze_result(history) is Ok {
            State {
                balances: if history.len() == 0 {
                    self.balances.thawed(who)
                } else {
                    self.balances.with_freeze(who, max_cost(history) as Balance)
                },
                ..self
            }
        } else {
            self
        }
    }

    /// The engine once `who` has taken back the vote on `proposal_id`, if
    /// there is one: the proposal loses its votes, the account its record,
    /// and the freeze follows the votes that are left.
    pub open spec fn withdrawn(self, who: AccountId, proposal_id: ProposalId) -> State {
        let history = self.history_of(who);
        let proposal = self.proposals[proposal_id];
        match find_vote(history, proposal_id) {
            Some(i) => {
                let vote = history[i];
                let left = history.remove(i);
                self.with_history(who, left).unfreeze_next(who, left).with_proposal(
                    proposal_id,
                    proposal.with_votes_removed(vote.aye, vote.votes),
                )
            },
            None => self,
        }
    }

    /// Why the vote that `who` has on `proposal_id` cannot be taken back, if
    /// it cannot.
    pub open spec fn withdraw_result(self, who: AccountId, proposal_id: ProposalId) -> Result<
        (),
        Error,
    > {
        let history = self.history_of(who);
        let proposal = self.proposals[proposal_id];
        match find_vote(history, proposal_id) {
            Some(i) => if proposal.tally(history[i].aye) < history[i].votes {
                Err(Error::Underflow)
            } else {
                State::unfreeze_result(history.remove(i))
            },
            None => Ok(()),
        }
    }

    /// The engine once `who` has cast `votes` new votes on `proposal_id`.
    pub open spec fn cast(self, who: AccountId, votes: Balance, aye: bool, proposal_id: ProposalId)
        -> State {
        let proposal = self.proposals[proposal_id];
        self.freeze_next(
            who,
            UserVoteInfo { proposal_id, aye, votes },
            cost(votes) as Balance,
        ).with_proposal(proposal_id, proposal.with_votes_added(aye, votes))
    }

    /// Why `who` cannot cast `votes` new votes on `proposal_id`, if so.
    pub open spec fn cast_result(
        self,
        who: AccountId,
        votes: Balance,
        aye: bool,
        proposal_id: ProposalId,
    ) -> Result<(), Error> {
        if self.freeze_result(who) is Err {
            self.freeze_result(who)
        } else if self.proposals[proposal_id].tally(aye) + votes > Balance::MAX {
            Err(Error::Overflow)
        } else {
            Ok(())
        }
    }

    /// What casting `votes` votes on `proposal_id` answers. The refusals, in the
    /// order in which they are looked for: the origin has not signed; the
    /// account is not registered; there is no such proposal; it is closed; the
    /// cost of the votes is no amount of tokens; the account owns less than the
    /// cost; the vote it has on the proposal cannot be taken back; for more than
    /// 0 votes, the account has no room for a vote or the tally none for the
    /// votes.
    pub open spec fn vote_result(
        self,
        origin: RawOrigin,
        votes: Balance,
        aye: bool,
        proposal_id: ProposalId,
    ) -> Result<Event, Error> {
        match signer(origin) {
            None => Err(Error::BadOrigin),
            Some(who) => if !self.registered.contains(who) {
                Err(Error::NotRegistered)
            } else if !self.proposals.contains_key(proposal_id) {
                Err(Error::ProposalDoesNotExist)
            } else if self.proposals[proposal_id].end {
                Err(Error::VoteAlreadyEnded)
            } else if cost(votes) > Balance::MAX {
                Err(Error::Overflow)
            } else if self.balances.total_of(who) < cost(votes) {
                Err(Error::InsufficientFunds)
            } else {
                match self.withdraw_result(who, proposal_id) {
                    Err(e) => Err(e),
                    Ok(_) => if votes == 0 {
                        Ok(Event::VoteRemovedOrCancelled { proposal_id })
                    } else {
                        match self.withdrawn(who, proposal_id).cast_result(
                            who,
                            votes,
                            aye,
                            proposal_id,
                        ) {
                            Err(e) => Err(e),
                            Ok(_) => Ok(Event::VoteAddedTo { proposal_id, votes }),
                        }
                    },
                }
            },
        }
    }

    /// The engine once the origin has voted: the vote it had on the proposal is
    /// taken back and, for more than 0 votes, the new one is cast. Unchanged
    /// where the vote is refused.
    pub open spec fn vote_next(
        self,
        origin: RawOrigin,
        votes: Balance,
        aye: bool,
        proposal_id: ProposalId,
    ) -> State {
        match (signer(origin), self.vote_result(origin, votes, aye, proposal_id)) {
            (Some(who), Ok(_)) => if votes == 0 {
                self.withdrawn(who, proposal_id)
            } else {
                self.withdrawn(who, proposal_id).cast(who, votes, aye, proposal_id)
            },
            _ => self,
        }
    }

    /// The first block in which a proposal made in `start_block` can be
    /// closed.
    pub open spec fn deadline(self, start_block: BlockNumber) -> int {
        block_number_as_balance(start_block) + block_number_as_balance(self.proposal_duration)
    }

    /// Whether a proposal made in `start_block` can be closed now.
    pub open spec fn proposal_ended_result(self, start_block: BlockNumber) -> Result<(), Error> {
        if self.deadline(start_block) > Balance::MAX {
            Err(Error::Overflow)
        } else if self.deadline(start_block) > block_number_as_balance(self.block_number) {
            Err(Error::VotingPeriodNotOver)
        } else {
            Ok(())
        }
    }

    /// What closing the proposal `proposal_id` answers: how the vote went, or
    /// why the proposal cannot be closed.
    pub open spec fn end_vote_result(self, origin: RawOrigin, proposal_id: ProposalId) -> Result<
        Event,
        Error,
    > {
        if signer(origin) is None {
            Err(Error::BadOrigin)
        } else if !self.proposals.contains_key(proposal_id) {
            Err(Error::ProposalDoesNotExist)
        } else if self.proposals[proposal_id].end {
            Err(Error::VoteAlreadyEnded)
        } else {
            match self.proposal_ended_result(self.proposals[proposal_id].start_block) {
                Err(e) => Err(e),
                Ok(_) => Ok(self.proposals[proposal_id].outcome(proposal_id)),
            }
        }
    }

    /// The engine once the proposal `proposal_id` is closed: nothing but its
    /// `end` changes. Unchanged where closing is refused.
    pub open spec fn end_vote_next(self, origin: RawOrigin, proposal_id: ProposalId) -> State {
        if self.end_vote_result(origin, proposal_id) is Ok {
            self.with_proposal(proposal_id, self.proposals[proposal_id].ended())
        } else {
            self
        }
    }

    /// What claiming the tokens frozen for the closed proposal `proposal_id`
    /// answers: tokens are unlocked only where the account's vote on the
    /// highest-numbered proposal is the vote on `proposal_id`.
    pub open spec fn claim_frozen_tokens_result(self, origin: RawOrigin, proposal_id: ProposalId)
        -> Result<Event, Error> {
        match signer(origin) {
            None => Err(Error::BadOrigin),
            Some(who) => if !self.registered.contains(who) {
                Err(Error::NotRegistered)
            } else if !self.proposals.contains_key(proposal_id) {
                Err(Error::ProposalDoesNotExist)
            } else if !self.proposals[proposal_id].end {
                Err(Error::VotingPeriodNotOver)
            } else {
                let history = self.history_of(who);
                match latest_vote(history) {
                    None => Err(Error::NoVotes),
                    Some(i) => if history[i].proposal_id != proposal_id {
                        Ok(Event::NoTokensUnlocked)
                    } else {
                        match State::unfreeze_result(history.remove(i)) {
                            Err(e) => Err(e),
                            Ok(_) => Ok(Event::TokensUnlocked),
                        }
                    },
                }
            },
        }
    }

    /// The engine once the claim is through: where tokens are unlocked, the
    /// claimed vote has left the account's active votes and the freeze follows
    /// those that are left. Unchanged otherwise.
    pub open spec fn claim_frozen_tokens_next(self, origin: RawOrigin, proposal_id: ProposalId)
        -> State {
        match (signer(origin), self.claim_frozen_tokens_result(origin, proposal_id)) {
            (Some(who), Ok(Event::TokensUnlocked)) => {
                let history = self.history_of(who);
                let left = history.remove(latest_vote(history).unwrap());
                self.with_history(who, left).unfreeze_next(who, left)
            },
            _ => self,
        }
    }
}

} // verus!
