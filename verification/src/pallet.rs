//! The voting engine: the registry of voters, the pool of proposals, each
//! account's active votes and the freezes that follow from them.

use crate::balances::NativeBalance;
use crate::hashing::{blake2_256, hash_description};
use crate::history::{find_vote, latest_vote, lemma_find_vote, lemma_latest_vote};
use crate::ledger::VoteLedger;
use crate::model::State;
use crate::preserved::{
    lemma_at_block_keeps_inv, lemma_claim_frozen_tokens_keeps_inv, lemma_create_proposal_keeps_inv,
    lemma_end_vote_keeps_inv, lemma_initial_inv, lemma_minted_keeps_inv,
    lemma_register_voters_keeps_inv, lemma_vote_keeps_inv,
};
use crate::types::{
    block_number_as_balance, ensure_root, ensure_signed, next_proposal_id, required_tokens,
    AccountId, Balance, BlockNumber, DescriptionHash, Error, Event, FreezeReason, Proposal,
    ProposalId, RawOrigin, UserVoteInfo, MAX_VOTES,
};
use std::collections::{HashMap, HashSet};
use vstd::prelude::*;

verus! {

/// The voting engine. Every operation either succeeds, and says what it did,
/// or is refused with the reason and leaves the engine as it was.
///
/// What the engine holds is its view, a [`State`]; the contracts say what an
/// operation answers and what the engine holds afterwards. `State::inv` holds
/// of a new engine and is kept by every operation. The functions that put
/// stored state back (`insert_proposal`, `insert_voting_history`,
/// `set_proposal_index`, `set_freeze`) take whatever they are given: it is on
/// the host to give them what an engine held.
pub struct Pallet {
    registered_accounts: HashSet<AccountId>,
    proposal_index: ProposalId,
    proposal_pool: HashMap<ProposalId, Proposal>,
    voting_history: HashMap<AccountId, VoteLedger>,
    native_balance: NativeBalance,
    block_number: BlockNumber,
    proposal_duration: BlockNumber,
}

impl View for Pallet {
    type V = State;

    closed spec fn view(&self) -> State {
        State {
            registered: self.registered_accounts@,
            proposal_index: self.proposal_index,
            proposals: self.proposal_pool@,
            histories: self.voting_history@.map_values(|ledger: VoteLedger| ledger@),
            balances: self.native_balance@,
            block_number: self.block_number,
            proposal_duration: self.proposal_duration,
        }
    }
}

impl Pallet {
    /// An engine in block 0 without voters, proposals or tokens, in which a
    /// proposal stays open for `proposal_duration` blocks at least.
    pub fn new(proposal_duration: BlockNumber) -> (r: Self)
        ensures
            r@ == State::initial(proposal_duration),
            r@.inv(),
    {
        proof {
            lemma_initial_inv(proposal_duration);
        }
        let r = Pallet {
            registered_accounts: HashSet::new(),
            proposal_index: 0,
            proposal_pool: HashMap::new(),
            voting_history: HashMap::new(),
            native_balance: NativeBalance::new(),
            block_number: 0,
            proposal_duration,
        };
        assert(r@.histories =~= Map::<AccountId, Seq<UserVoteInfo>>::empty());
        r
    }

    /// The current block.
    pub fn get_current_block_number(&self) -> (r: BlockNumber)
        ensures
            r == self@.block_number,
    {
        self.block_number
    }

    /// Moves the engine to the block `block_number`.
    pub fn set_block_number(&mut self, block_number: BlockNumber)
        ensures
            final(self)@ == old(self)@.at_block(block_number),
            old(self)@.inv() ==> final(self)@.inv(),
    {
        proof {
            if self@.inv() {
                lemma_at_block_keeps_inv(self@, block_number);
            }
        }
        self.block_number = block_number;
    }

    /// A block number as an amount, so that the two compare and add.
    pub fn convert_block_number_to_balance(block_number: BlockNumber) -> (r: Balance)
        ensures
            r == block_number_as_balance(block_number),
    {
        block_number
    }

    /// Whether `who` may propose and vote.
    pub fn is_registered(&self, who: AccountId) -> (r: bool)
        ensures
            r == self@.registered.contains(who),
    {
        self.registered_accounts.contains(&who)
    }

    /// The id that the next proposal gets.
    pub fn proposal_index(&self) -> (r: ProposalId)
        ensures
            r == self@.proposal_index,
    {
        self.proposal_index
    }

    /// The proposal `proposal_id`, if it was made.
    pub fn proposal(&self, proposal_id: ProposalId) -> (r: Option<Proposal>)
        ensures
            r == if self@.proposals.contains_key(proposal_id) {
                Some(self@.proposals[proposal_id])
            } else {
                None
            },
    {
        match self.proposal_pool.get(&proposal_id) {
            Some(proposal) => Some(*proposal),
            None => None,
        }
    }

    /// The active votes of `who`, if the account ever had one.
    pub fn voting_history(&self, who: AccountId) -> (r: Option<VoteLedger>)
        ensures
            match r {
                Some(ledger) => self@.histories.contains_key(who) && ledger@
                    == self@.histories[who],
                None => !self@.histories.contains_key(who),
            },
    {
        match self.voting_history.get(&who) {
            Some(ledger) => Some(ledger.duplicate()),
            None => None,
        }
    }

    /// The tokens that `who` owns, frozen ones included.
    pub fn total_balance(&self, who: AccountId) -> (r: Balance)
        ensures
            r == self@.balances.total_of(who),
    {
        self.native_balance.total_balance(who)
    }

    /// The tokens of `who` that are frozen for `reason`.
    pub fn balance_frozen(&self, reason: FreezeReason, who: AccountId) -> (r: Balance)
        ensures
            r == self@.frozen_of(who),
    {
        self.native_balance.balance_frozen(reason, who)
    }

    /// Gives `who` `amount` new tokens and returns what the account then
    /// owns. `Overflow`, and nothing changed, where that is no amount of
    /// tokens.
    pub fn mint_into(&mut self, who: AccountId, amount: Balance) -> (r: Result<Balance, Error>)
        ensures
            old(self)@.balances.total_of(who) + amount <= Balance::MAX ==> r == Ok::<Balance, Error>(
                (old(self)@.balances.total_of(who) + amount) as Balance,
            ) && final(self)@ == old(self)@.minted(who, amount),
            old(self)@.balances.total_of(who) + amount > Balance::MAX ==> r == Err::<Balance, Error>(
                Error::Overflow,
            ) && final(self)@ == old(self)@,
            old(self)@.inv() ==> final(self)@.inv(),
    {
        proof {
            if self@.inv() {
                lemma_minted_keeps_inv(self@, who, amount);
            }
        }
        self.native_balance.mint_into(who, amount)
    }

    /// Puts `ledger` in the place of the active votes of `who`, whatever they
    /// were. Nothing else changes: neither tallies nor freezes follow.
    pub fn insert_voting_history(&mut self, who: AccountId, ledger: VoteLedger)
        ensures
            final(self)@ == old(self)@.with_history(who, ledger@),
    {
        let ghost history = ledger@;
        self.voting_history.insert(who, ledger);
        assert(self@.histories =~= old(self)@.histories.insert(who, history));
    }

    /// Puts `proposal` in the place of the proposal `proposal_id`, whether
    /// there was one or not. Nothing else changes.
    pub fn insert_proposal(&mut self, proposal_id: ProposalId, proposal: Proposal)
        ensures
            final(self)@ == old(self)@.with_proposal(proposal_id, proposal),
    {
        self.proposal_pool.insert(proposal_id, proposal);
    }

    /// Sets the id that the next proposal gets. Nothing else changes.
    pub fn set_proposal_index(&mut self, proposal_index: ProposalId)
        ensures
            final(self)@ == old(self)@.with_proposal_index(proposal_index),
    {
        self.proposal_index = proposal_index;
    }

    /// Sets the freeze of `who` for `reason` to exactly `amount`, whatever it
    /// was before; 0 lifts it. Nothing else changes.
    pub fn set_freeze(&mut self, reason: FreezeReason, who: AccountId, amount: Balance)
        ensures
            final(self)@ == old(self)@.with_freeze(who, amount),
    {
        self.native_balance.set_freeze(reason, who, amount);
    }

    /// Takes `votes` votes off the tally of direction `aye`. `Underflow`,
    /// and nothing changed, where the tally holds fewer.
    pub fn remove_votes_from_proposal(proposal: &mut Proposal, aye: bool, votes: Balance) -> (r:
        Result<(), Error>)
        ensures
            r == if old(proposal).tally(aye) >= votes {
                Ok::<(), Error>(())
            } else {
                Err(Error::Underflow)
            },
            *final(proposal) == if r is Ok {
                old(proposal).with_votes_removed(aye, votes)
            } else {
                *old(proposal)
            },
    {
        if aye {
            match proposal.ayes.checked_sub(votes) {
                Some(left) => {
                    proposal.ayes = left;
                    Ok(())
                },
                None => Err(Error::Underflow),
            }
        } else {
            match proposal.nays.checked_sub(votes) {
                Some(left) => {
                    proposal.nays = left;
                    Ok(())
                },
                None => Err(Error::Underflow),
            }
        }
    }

    /// Adds `votes` votes to the tally of direction `aye`. `Overflow`, and
    /// nothing changed, where the sum is no amount.
    pub fn add_votes_to_proposal(proposal: &mut Proposal, aye: bool, votes: Balance) -> (r:
        Result<(), Error>)
        ensures
            r == if old(proposal).tally(aye) + votes <= Balance::MAX {
                Ok::<(), Error>(())
            } else {
                Err(Error::Overflow)
            },
            *final(proposal) == if r is Ok {
                old(proposal).with_votes_added(aye, votes)
            } else {
                *old(proposal)
            },
    {
        if aye {
            match proposal.ayes.checked_add(votes) {
                Some(sum) => {
                    proposal.ayes = sum;
                    Ok(())
                },
                None => Err(Error::Overflow),
            }
        } else {
            match proposal.nays.checked_add(votes) {
                Some(sum) => {
                    proposal.nays = sum;
                    Ok(())
                },
                None => Err(Error::Overflow),
            }
        }
    }

    /// Ends the voting on `proposal`, which began at `start_block`, where the
    /// proposal's duration is over at `current_block`: at the deadline itself
    /// or later. Before the deadline it refuses with `VotingPeriodNotOver`,
    /// and with `Overflow` where the deadline is no amount.
    pub fn proposal_ended(
        &self,
        start_block: Balance,
        current_block: Balance,
        proposal: &mut Proposal,
    ) -> (r: Result<(), Error>)
        ensures
            r == if start_block + block_number_as_balance(self@.proposal_duration) > Balance::MAX {
                Err::<(), Error>(Error::Overflow)
            } else if start_block + block_number_as_balance(self@.proposal_duration)
                > current_block {
                Err(Error::VotingPeriodNotOver)
            } else {
                Ok(())
            },
            *final(proposal) == if r is Ok {
                old(proposal).ended()
            } else {
                *old(proposal)
            },
    {
        let duration = Self::convert_block_number_to_balance(self.proposal_duration);
        match start_block.checked_add(duration) {
            None => Err(Error::Overflow),
            Some(deadline) => {
                if deadline > current_block {
                    Err(Error::VotingPeriodNotOver)
                } else {
                    proposal.end = true;
                    Ok(())
                }
            },
        }
    }

    /// The position of the vote that `who` has on `proposal_id`, with all the
    /// active votes of `who`; `None` where the account has no such vote.
    pub fn find_existing_vote(&self, who: AccountId, proposal_id: ProposalId) -> (r: Option<
        (usize, VoteLedger),
    >)
        ensures
            match r {
                Some((index, ledger)) => ledger@ == self@.history_of(who) && find_vote(
                    self@.history_of(who),
                    proposal_id,
                ) == Some(index as int),
                None => find_vote(self@.history_of(who), proposal_id) is None,
            },
    {
        match self.voting_history.get(&who) {
            Some(ledger) => {
                match ledger.find(proposal_id) {
                    Some(index) => Some((index, ledger.duplicate())),
                    None => None,
                }
            },
            None => None,
        }
    }

    /// Sets the freeze of `who` to what the votes in `voting_history` ask
    /// for: the cost of the costliest, and no freeze where there is none.
    /// `Overflow`, and nothing changed, where the cost of some vote is no
    /// amount of tokens.
    pub fn unfreeze(&mut self, who: AccountId, voting_history: &VoteLedger) -> (r: Result<
        (),
        Error,
    >)
        ensures
            r == State::unfreeze_result(voting_history@),
            final(self)@ == old(self)@.unfreeze_next(who, voting_history@),
    {
        match voting_history.binding() {
            Err(e) => Err(e),
            Ok(Some((_, max_freeze))) => {
                self.native_balance.set_freeze(FreezeReason::AccountDeposit, who, max_freeze);
                Ok(())
            },
            Ok(None) => {
                self.native_balance.thaw(FreezeReason::AccountDeposit, who);
                Ok(())
            },
        }
    }

    /// Adds `user_vote` to the active votes of `who` and raises the freeze of
    /// `who` to `required_tokens` where it was lower; it never lowers it.
    /// `TooManyVotes`, and nothing changed, where the account already has
    /// [`MAX_VOTES`] active votes. It does not ask whether the account owns
    /// `required_tokens`.
    pub fn freeze(
        &mut self,
        who: AccountId,
        user_vote: UserVoteInfo,
        required_tokens: Balance,
    ) -> (r: Result<(), Error>)
        ensures
            r == old(self)@.freeze_result(who),
            final(self)@ == old(self)@.freeze_next(who, user_vote, required_tokens),
    {
        let mut ledger = match self.voting_history(who) {
            Some(ledger) => ledger,
            None => VoteLedger::new(),
        };
        match ledger.try_push(user_vote) {
            Err(e) => {
                return Err(e);
            },
            Ok(_) => {},
        }
        self.insert_voting_history(who, ledger);
        if required_tokens > self.native_balance.balance_frozen(FreezeReason::AccountDeposit, who) {
            self.native_balance.set_freeze(FreezeReason::AccountDeposit, who, required_tokens);
        }
        Ok(())
    }

    /// Registers `voter`, so that the account may propose and vote. Only the
    /// root origin may do so, and an account is registered once.
    pub fn register_voters(&mut self, origin: RawOrigin, voter: AccountId) -> (r: Result<
        Event,
        Error,
    >)
        ensures
            r == old(self)@.register_voters_result(origin, voter),
            final(self)@ == old(self)@.register_voters_next(origin, voter),
            old(self)@.inv() ==> final(self)@.inv(),
    {
        proof {
            if self@.inv() {
                lemma_register_voters_keeps_inv(self@, origin, voter);
            }
        }
        match ensure_root(origin) {
            Err(e) => {
                return Err(e);
            },
            Ok(_) => {},
        }
        if self.registered_accounts.contains(&voter) {
            return Err(Error::VoterAlreadyRegistered);
        }
        self.registered_accounts.insert(voter);
        Ok(Event::VoterRegistered { voter })
    }

    /// Stores a new proposal with the digest `description`: open, without
    /// votes, made in the current block. It gets the next id, which is
    /// returned. `IdOverflow`, and nothing changed, where no id is left.
    pub fn create_proposal(&mut self, description: DescriptionHash) -> (r: Result<
        ProposalId,
        Error,
    >)
        ensures
            r == old(self)@.create_proposal_result(),
            final(self)@ == old(self)@.create_proposal_next(description),
            old(self)@.inv() ==> final(self)@.inv(),
    {
        proof {
            if self@.inv() {
                lemma_create_proposal_keeps_inv(self@, description);
            }
        }
        let proposal_id = self.proposal_index;
        let next = match next_proposal_id(proposal_id) {
            Ok(next) => next,
            Err(e) => {
                return Err(e);
            },
        };
        let proposal = Proposal {
            description,
            start_block: self.get_current_block_number(),
            ayes: 0,
            nays: 0,
            end: false,
        };
        self.proposal_pool.insert(proposal_id, proposal);
        self.proposal_index = next;
        Ok(proposal_id)
    }

    /// Makes a proposal out of the text `proposal_description`, of which the
    /// Blake2b-256 digest is stored. The origin must be a registered voter.
    pub fn make_proposal(&mut self, origin: RawOrigin, proposal_description: Vec<u8>) -> (r:
        Result<Event, Error>)
        ensures
            r == old(self)@.make_proposal_result(origin),
            r is Err ==> final(self)@ == old(self)@,
            r matches Ok(Event::ProposalCreated { proposal_id }) ==> {
                let description = final(self)@.proposals[proposal_id].description;
                &&& description@ == blake2_256(proposal_description@)
                &&& final(self)@ == old(self)@.make_proposal_next(origin, description)
            },
            old(self)@.inv() ==> final(self)@.inv(),
    {
        let who = match ensure_signed(origin) {
            Ok(who) => who,
            Err(e) => {
                return Err(e);
            },
        };
        if !self.registered_accounts.contains(&who) {
            return Err(Error::NotRegistered);
        }
        let description = hash_description(&proposal_description);
        match self.create_proposal(description) {
            Ok(proposal_id) => Ok(Event::ProposalCreated { proposal_id }),
            Err(e) => Err(e),
        }
    }

    /// Casts `votes` votes of the origin on the proposal `proposal_id`, in
    /// approval if `aye` and else in rejection. An earlier vote of the same
    /// account on that proposal is taken back first, so that the new votes
    /// replace it; casting 0 votes only takes it back.
    ///
    /// The origin must be a registered voter who owns the square of `votes`
    /// in tokens, and the proposal must be open.
    pub fn vote(
        &mut self,
        origin: RawOrigin,
        votes: Balance,
        aye: bool,
        proposal_id: ProposalId,
    ) -> (r: Result<Event, Error>)
        ensures
            r == old(self)@.vote_result(origin, votes, aye, proposal_id),
            final(self)@ == old(self)@.vote_next(origin, votes, aye, proposal_id),
            old(self)@.inv() ==> final(self)@.inv(),
    {
        proof {
            if self@.inv() {
                lemma_vote_keeps_inv(self@, origin, votes, aye, proposal_id);
            }
        }
        let who = match ensure_signed(origin) {
            Ok(who) => who,
            Err(e) => {
                return Err(e);
            },
        };
        if !self.registered_accounts.contains(&who) {
            return Err(Error::NotRegistered);
        }
        let mut proposal = match self.proposal(proposal_id) {
            Some(proposal) => proposal,
            None => {
                return Err(Error::ProposalDoesNotExist);
            },
        };
        if proposal.end {
            return Err(Error::VoteAlreadyEnded);
        }
        let required_tokens = match required_tokens(votes) {
            Some(required_tokens) => required_tokens,
            None => {
                return Err(Error::Overflow);
            },
        };
        if self.native_balance.total_balance(who) < required_tokens {
            return Err(Error::InsufficientFunds);
        }
        let user_vote = UserVoteInfo { proposal_id, aye, votes };

        // Every refusal is found before anything is changed.
        let existing = self.find_existing_vote(who, proposal_id);
        let mut votes_left: usize = match self.voting_history.get(&who) {
            Some(ledger) => ledger.len(),
            None => 0,
        };
        let mut left: Option<VoteLedger> = None;
        if let Some((index, mut voting_history)) = existing {
            proof {
                lemma_find_vote(voting_history@, proposal_id);
            }
            let old_vote = match voting_history.remove(index) {
                Some(old_vote) => old_vote,
                None => {
                    return Err(Error::NoVotes);
                },
            };
            match Self::remove_votes_from_proposal(&mut proposal, old_vote.aye, old_vote.votes) {
                Err(e) => {
                    return Err(e);
                },
                Ok(_) => {},
            }
            match voting_history.binding() {
                Err(e) => {
                    return Err(e);
                },
                Ok(_) => {},
            }
            votes_left = voting_history.len();
            left = Some(voting_history);
        }
        if votes != 0 {
            if votes_left >= MAX_VOTES as usize {
                return Err(Error::TooManyVotes);
            }
            match Self::add_votes_to_proposal(&mut proposal, aye, votes) {
                Err(e) => {
                    return Err(e);
                },
                Ok(_) => {},
            }
        }

        // Take the earlier vote back.
        if let Some(voting_history) = left {
            match self.unfreeze(who, &voting_history) {
                Err(e) => {
                    return Err(e);
                },
                Ok(_) => {},
            }
            self.insert_voting_history(who, voting_history);
        }
        if votes == 0 {
            self.insert_proposal(proposal_id, proposal);
            assert(self@ == old(self)@.vote_next(origin, votes, aye, proposal_id));
            return Ok(Event::VoteRemovedOrCancelled { proposal_id });
        }
        // Then cast the new one.
        match self.freeze(who, user_vote, required_tokens) {
            Err(e) => {
                return Err(e);
            },
            Ok(_) => {},
        }
        self.insert_proposal(proposal_id, proposal);
        assert(self@ == old(self)@.vote_next(origin, votes, aye, proposal_id));
        Ok(Event::VoteAddedTo { proposal_id, votes })
    }

    /// Closes the proposal `proposal_id` and tells how the vote went. Anyone
    /// who signs may do so, once the proposal's duration is over: in the
    /// block `start_block + proposal_duration` or later. The tallies stay as
    /// they are.
    pub fn end_vote(&mut self, origin: RawOrigin, proposal_id: ProposalId) -> (r: Result<
        Event,
        Error,
    >)
        ensures
            r == old(self)@.end_vote_result(origin, proposal_id),
            final(self)@ == old(self)@.end_vote_next(origin, proposal_id),
            old(self)@.inv() ==> final(self)@.inv(),
    {
        proof {
            if self@.inv() {
                lemma_end_vote_keeps_inv(self@, origin, proposal_id);
            }
        }
        match ensure_signed(origin) {
            Err(e) => {
                return Err(e);
            },
            Ok(_) => {},
        }
        let mut proposal = match self.proposal(proposal_id) {
            Some(proposal) => proposal,
            None => {
                return Err(Error::ProposalDoesNotExist);
            },
        };
        if proposal.end {
            return Err(Error::VoteAlreadyEnded);
        }
        let start_block = Self::convert_block_number_to_balance(proposal.start_block);
        let current_block = Self::convert_block_number_to_balance(self.get_current_block_number());
        match self.proposal_ended(start_block, current_block, &mut proposal) {
            Err(e) => {
                return Err(e);
            },
            Ok(_) => {},
        }
        let outcome = if proposal.ayes > proposal.nays {
            Event::ProposalResultAye { proposal_id }
        } else if proposal.ayes < proposal.nays {
            Event::ProposalResultNay { proposal_id }
        } else {
            Event::ProposalResultTie { proposal_id }
        };
        self.insert_proposal(proposal_id, proposal);
        Ok(outcome)
    }

    /// Gives the origin the tokens back that its vote on the closed proposal
    /// `proposal_id` kept frozen. Only the vote on the highest-numbered
    /// proposal among the account's active votes can be claimed: it leaves
    /// the account's votes and the freeze follows those that are left. For
    /// any other proposal nothing changes and `NoTokensUnlocked` is the
    /// answer.
    pub fn claim_frozen_tokens(&mut self, origin: RawOrigin, proposal_id: ProposalId) -> (r:
        Result<Event, Error>)
        ensures
            r == old(self)@.claim_frozen_tokens_result(origin, proposal_id),
            final(self)@ == old(self)@.claim_frozen_tokens_next(origin, proposal_id),
            old(self)@.inv() ==> final(self)@.inv(),
    {
        proof {
            if self@.inv() {
                lemma_claim_frozen_tokens_keeps_inv(self@, origin, proposal_id);
            }
        }
        let who = match ensure_signed(origin) {
            Ok(who) => who,
            Err(e) => {
                return Err(e);
            },
        };
        if !self.registered_accounts.contains(&who) {
            return Err(Error::NotRegistered);
        }
        let proposal = match self.proposal(proposal_id) {
            Some(proposal) => proposal,
            None => {
                return Err(Error::ProposalDoesNotExist);
            },
        };
        if !proposal.end {
            return Err(Error::VotingPeriodNotOver);
        }
        let mut voting_history = match self.voting_history(who) {
            Some(voting_history) => voting_history,
            None => {
                proof {
                    assert(latest_vote(Seq::<UserVoteInfo>::empty()) is None);
                }
                return Err(Error::NoVotes);
            },
        };
        let index = match voting_history.latest() {
            Some(index) => index,
            None => {
                return Err(Error::NoVotes);
            },
        };
        proof {
            lemma_latest_vote(voting_history@);
        }
        let latest = match voting_history.remove(index) {
            Some(latest) => latest,
            None => {
                return Err(Error::NoVotes);
            },
        };
        if latest.proposal_id != proposal_id {
            return Ok(Event::NoTokensUnlocked);
        }
        match self.unfreeze(who, &voting_history) {
            Err(e) => {
                return Err(e);
            },
            Ok(_) => {},
        }
        self.insert_voting_history(who, voting_history);
        Ok(Event::TokensUnlocked)
    }
}

} // verus!
