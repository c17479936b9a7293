//! What the engine guarantees, stated over its states and proved.
//!
//! Some laws hold of every state, others of the states that the engine can
//! reach. `State::inv` holds of all of these: it holds of the state in which
//! the engine starts, and registering, proposing, voting, closing, claiming,
//! minting and the passing of time keep it (see `preserved`). The laws that
//! ask for `State::inv` speak of such states as reachable.

use crate::history::{
    binding_vote, costs_fit, distinct_proposals, find_vote, latest_vote, lemma_find_vote,
    lemma_latest_vote, lemma_max_cost, max_cost, outranks,
};
use crate::model::State;
use crate::reachable::{
    account_count, lemma_max_cost_fits, lemma_max_cost_push, lemma_max_cost_remove,
    lemma_remove_keeps_form, lemma_tally_below_bounds, lemma_tally_in_bounds,
};
use crate::types::{
    cost, signer, AccountId, Balance, BlockNumber, DescriptionHash, Error, Event, ProposalId,
    RawOrigin, UserVoteInfo, MAX_VOTES,
};
use vstd::prelude::*;

verus! {

/// In a reachable state every account has frozen the cost of its costliest
/// active vote: the greatest square of a vote count among them, and nothing
/// where it has no active vote.
pub proof fn law_freeze_is_greatest_cost(state: State, who: AccountId)
    requires
        state.inv(),
    ensures
        state.frozen_of(who) == max_cost(state.history_of(who)),
        state.history_of(who).len() == 0 ==> state.frozen_of(who) == 0,
        forall|i: int|
            0 <= i < state.history_of(who).len() ==> cost(#[trigger] state.history_of(who)[i].votes)
                <= state.frozen_of(who),
        state.history_of(who).len() > 0 ==> exists|i: int|
            0 <= i < state.history_of(who).len() && cost(#[trigger] state.history_of(who)[i].votes)
                == state.frozen_of(who),
{
    assert(state.frozen_of(who) == max_cost(state.history_of(who)));
    lemma_max_cost(state.history_of(who));
}

/// The vote that decides an account's freeze is one of the greatest cost;
/// none that costs as much is on a higher-numbered proposal.
pub proof fn law_binding_vote_is_the_costliest(s: Seq<UserVoteInfo>)
    ensures
        match binding_vote(s) {
            Some(i) => 0 <= i < s.len() && cost(s[i].votes) == max_cost(s) && forall|j: int|
                0 <= j < s.len() ==> outranks(s[i], #[trigger] s[j]),
            None => s.len() == 0 && max_cost(s) == 0,
        },
    decreases s.len(),
{
    if s.len() > 0 {
        let t = s.drop_last();
        law_binding_vote_is_the_costliest(t);
        match binding_vote(t) {
            Some(i) => {
                assert(s[i] == t[i]);
                assert forall|j: int| 0 <= j < t.len() implies outranks(t[i], #[trigger] s[j]) by {
                    assert(s[j] == t[j]);
                }
            },
            None => {},
        }
    }
}

/// In a reachable state the tallies of every open proposal are the sums of
/// the vote counts of the active votes on it, ayes and nays apart.
pub proof fn law_tallies_are_sums(state: State, proposal_id: ProposalId)
    requires
        state.inv(),
        state.proposals.contains_key(proposal_id),
        !state.proposals[proposal_id].end,
    ensures
        state.proposals[proposal_id].ayes == state.tally_of(proposal_id, true),
        state.proposals[proposal_id].nays == state.tally_of(proposal_id, false),
{
}

/// In a reachable state no account has more than [`MAX_VOTES`] active votes
/// and no two of them are on the same proposal.
pub proof fn law_votes_are_bounded_and_distinct(state: State, who: AccountId)
    requires
        state.inv(),
    ensures
        state.history_of(who).len() <= MAX_VOTES,
        distinct_proposals(state.history_of(who)),
        costs_fit(state.history_of(who)),
{
    assert(state.history_well_formed(who));
}

/// In a reachable state a registered voter can always take back the vote it
/// has on an open proposal, by casting 0 votes: the vote leaves the account's
/// active votes, the others stay in their order, and no account's freeze
/// grows.
pub proof fn law_cancelling_removes_the_vote(
    state: State,
    who: AccountId,
    aye: bool,
    proposal_id: ProposalId,
)
    requires
        state.inv(),
        state.registered.contains(who),
        find_vote(state.history_of(who), proposal_id) is Some,
        !state.proposals[proposal_id].end,
    ensures
        ({
            let origin = RawOrigin::Signed(who);
            let next = state.vote_next(origin, 0, aye, proposal_id);
            let i = find_vote(state.history_of(who), proposal_id).unwrap();
            &&& state.vote_result(origin, 0, aye, proposal_id) == Ok::<Event, Error>(
                Event::VoteRemovedOrCancelled { proposal_id },
            )
            &&& next.history_of(who) == state.history_of(who).remove(i)
            &&& find_vote(next.history_of(who), proposal_id) is None
            &&& forall|other: AccountId| #[trigger] next.frozen_of(other) <= state.frozen_of(other)
        }),
{
    let origin = RawOrigin::Signed(who);
    let history = state.history_of(who);
    let i = find_vote(history, proposal_id).unwrap();
    let proposal = state.proposals[proposal_id];
    lemma_find_vote(history, proposal_id);
    assert(state.history_well_formed(who));
    assert(state.proposals.contains_key(history[i].proposal_id));
    assert(cost(0) == 0);
    // The tally holds the votes that are taken back.
    lemma_tally_in_bounds(history, proposal_id, history[i].aye);
    lemma_tally_below_bounds(state, who, proposal_id, history[i].aye, account_count());
    assert(proposal.tally(history[i].aye) == state.tally_of(proposal_id, history[i].aye));
    lemma_remove_keeps_form(history, i);
    let left = history.remove(i);
    let next = state.vote_next(origin, 0, aye, proposal_id);
    assert(next == state.withdrawn(who, proposal_id));
    assert(next.history_of(who) == left);
    lemma_max_cost_remove(history, i);
    lemma_max_cost_fits(left);
    assert forall|other: AccountId| #[trigger] next.frozen_of(other) <= state.frozen_of(other) by {
        assert(state.frozen_of(other) == max_cost(state.history_of(other)));
    }
}

/// A vote whose cost is no amount of tokens is refused with `Overflow` and
/// changes nothing; the greatest vote count there is is such a vote.
pub proof fn law_cost_overflow_is_refused(
    state: State,
    who: AccountId,
    votes: Balance,
    aye: bool,
    proposal_id: ProposalId,
)
    requires
        state.registered.contains(who),
        state.proposals.contains_key(proposal_id),
        !state.proposals[proposal_id].end,
        cost(votes) > Balance::MAX,
    ensures
        state.vote_result(RawOrigin::Signed(who), votes, aye, proposal_id) == Err::<Event, Error>(
            Error::Overflow,
        ),
        state.vote_next(RawOrigin::Signed(who), votes, aye, proposal_id) == state,
        cost(Balance::MAX) > Balance::MAX,
{
    assert(cost(Balance::MAX) > Balance::MAX) by (nonlinear_arith);
}

/// An open proposal cannot be closed before the block `start_block +
/// proposal_duration`, and can be closed by any signed origin in that block
/// and in every later one.
pub proof fn law_close_waits_for_the_deadline(state: State, who: AccountId, proposal_id: ProposalId)
    requires
        state.proposals.contains_key(proposal_id),
        !state.proposals[proposal_id].end,
    ensures
        ({
            let origin = RawOrigin::Signed(who);
            let deadline = state.proposals[proposal_id].start_block + state.proposal_duration;
            &&& state.block_number < deadline ==> state.end_vote_result(origin, proposal_id) is Err
                && state.end_vote_next(origin, proposal_id) == state
            &&& state.block_number >= deadline ==> state.end_vote_result(origin, proposal_id) is Ok
                && state.end_vote_next(origin, proposal_id).proposals[proposal_id].end
        }),
{
}

/// Closing reports the outcome that the tallies give (more ayes: accepted,
/// more nays: rejected, else a tie) and leaves the tallies, and everything
/// else about every proposal but the closed one's `end`, as they were.
pub proof fn law_outcome_follows_tallies(state: State, origin: RawOrigin, proposal_id: ProposalId)
    requires
        state.end_vote_result(origin, proposal_id) is Ok,
    ensures
        ({
            let before = state.proposals[proposal_id];
            let next = state.end_vote_next(origin, proposal_id);
            let after = next.proposals[proposal_id];
            &&& state.end_vote_result(origin, proposal_id) == Ok::<Event, Error>(
                if before.ayes > before.nays {
                    Event::ProposalResultAye { proposal_id }
                } else if before.ayes < before.nays {
                    Event::ProposalResultNay { proposal_id }
                } else {
                    Event::ProposalResultTie { proposal_id }
                },
            )
            &&& after.ayes == before.ayes
            &&& after.nays == before.nays
            &&& after == before.ended()
            &&& forall|other: ProposalId|
                other != proposal_id ==> #[trigger] next.proposals.contains_key(other)
                    == state.proposals.contains_key(other) && next.proposals[other]
                    == state.proposals[other]
            &&& next == state.with_proposal(proposal_id, before.ended())
        }),
{
}

/// A proposal is never deleted, and a closed proposal never changes again:
/// whatever is asked of the engine in a reachable state, every proposal is
/// still there afterwards, and the closed ones as they were.
pub proof fn law_closed_proposals_are_final(
    state: State,
    origin: RawOrigin,
    voter: AccountId,
    votes: Balance,
    aye: bool,
    asked: ProposalId,
    description: DescriptionHash,
    proposal_id: ProposalId,
)
    requires
        state.inv(),
        state.proposals.contains_key(proposal_id),
    ensures
        ({
            let before = state.proposals[proposal_id];
            let registered = state.register_voters_next(origin, voter);
            let proposed = state.make_proposal_next(origin, description);
            let voted = state.vote_next(origin, votes, aye, asked);
            let closed = state.end_vote_next(origin, asked);
            let claimed = state.claim_frozen_tokens_next(origin, asked);
            &&& registered.proposals == state.proposals
            &&& claimed.proposals == state.proposals
            &&& proposed.proposals.contains_key(proposal_id)
            &&& proposed.proposals[proposal_id] == before
            &&& voted.proposals.contains_key(proposal_id)
            &&& closed.proposals.contains_key(proposal_id)
            &&& before.end ==> voted.proposals[proposal_id] == before
                && closed.proposals[proposal_id] == before
            &&& !before.end ==> closed.proposals[proposal_id] == before || closed.proposals[proposal_id]
                == before.ended()
        }),
{
    assert(state.proposals.contains_key(proposal_id) <==> proposal_id < state.proposal_index);
    match signer(origin) {
        Some(who) => {
            lemma_find_vote(state.history_of(who), asked);
        },
        None => {},
    }
}

/// Proposals are numbered in the order in which they are made: the first
/// gets 0 and each one the id after the one before.
pub proof fn law_ids_count_up(
    state: State,
    origin: RawOrigin,
    description: DescriptionHash,
    proposal_duration: BlockNumber,
)
    ensures
        State::initial(proposal_duration).proposal_index == 0,
        match state.make_proposal_result(origin) {
            Ok(event) => {
                let next = state.make_proposal_next(origin, description);
                &&& event == Event::ProposalCreated { proposal_id: state.proposal_index }
                &&& next.proposal_index == state.proposal_index + 1
                &&& next.proposals.contains_key(state.proposal_index)
                &&& next.proposals[state.proposal_index].description == description
                &&& next.proposals[state.proposal_index].start_block == state.block_number
                &&& next.proposals[state.proposal_index].ayes == 0
                &&& next.proposals[state.proposal_index].nays == 0
                &&& !next.proposals[state.proposal_index].end
            },
            Err(_) => state.make_proposal_next(origin, description) == state,
        },
{
}

/// In a reachable state a vote of more than 0 votes that is accepted
/// replaces the vote that the account had on the proposal: the earlier vote,
/// if there was one, leaves the account's active votes, the others keep
/// their order and the new vote comes last. The account's freeze ends at the
/// cost of the new vote or the greatest cost among the votes that stayed,
/// whichever is more; the proposal loses the earlier votes and gains the new
/// ones; nobody else's votes or freezes change.
pub proof fn law_vote_replaces_the_vote(
    state: State,
    who: AccountId,
    votes: Balance,
    aye: bool,
    proposal_id: ProposalId,
)
    requires
        state.inv(),
        votes != 0,
        state.vote_result(RawOrigin::Signed(who), votes, aye, proposal_id) is Ok,
    ensures
        ({
            let history = state.history_of(who);
            let next = state.vote_next(RawOrigin::Signed(who), votes, aye, proposal_id);
            let vote = UserVoteInfo { proposal_id, aye, votes };
            let stayed = match find_vote(history, proposal_id) {
                Some(i) => history.remove(i),
                None => history,
            };
            let before = state.proposals[proposal_id];
            let without = match find_vote(history, proposal_id) {
                Some(i) => before.with_votes_removed(history[i].aye, history[i].votes),
                None => before,
            };
            &&& state.vote_result(RawOrigin::Signed(who), votes, aye, proposal_id) == Ok::<
                Event,
                Error,
            >(Event::VoteAddedTo { proposal_id, votes })
            &&& next.history_of(who) == stayed.push(vote)
            &&& next.frozen_of(who) == if cost(votes) > max_cost(stayed) {
                cost(votes)
            } else {
                max_cost(stayed)
            }
            &&& next.proposals[proposal_id] == without.with_votes_added(aye, votes)
            &&& forall|other: AccountId|
                other != who ==> #[trigger] next.history_of(other) == state.history_of(other)
                    && next.frozen_of(other) == state.frozen_of(other)
            &&& forall|other: ProposalId|
                other != proposal_id ==> #[trigger] next.proposals.contains_key(other)
                    == state.proposals.contains_key(other) && next.proposals[other]
                    == state.proposals[other]
        }),
{
    let origin = RawOrigin::Signed(who);
    let history = state.history_of(who);
    let vote = UserVoteInfo { proposal_id, aye, votes };
    lemma_find_vote(history, proposal_id);
    assert(state.history_well_formed(who));
    assert(state.frozen_of(who) == max_cost(history));
    let withdrawn = state.withdrawn(who, proposal_id);
    let stayed = withdrawn.history_of(who);
    match find_vote(history, proposal_id) {
        Some(i) => {
            lemma_remove_keeps_form(history, i);
            assert(stayed == history.remove(i));
        },
        None => {},
    }
    lemma_max_cost_fits(stayed);
    lemma_max_cost_push(stayed, vote);
    assert(cost(votes) > 0) by (nonlinear_arith)
        requires
            votes != 0,
    ;
    assert(withdrawn.frozen_of(who) == max_cost(stayed));
}

/// A claim unlocks tokens only for the highest-numbered proposal among the
/// account's active votes. While the account has an active vote on a
/// higher-numbered proposal, a claim for a closed proposal answers
/// `NoTokensUnlocked` and changes nothing.
pub proof fn law_claim_unlocks_the_latest_vote_only(
    state: State,
    who: AccountId,
    proposal_id: ProposalId,
)
    ensures
        ({
            let origin = RawOrigin::Signed(who);
            let history = state.history_of(who);
            let result = state.claim_frozen_tokens_result(origin, proposal_id);
            let next = state.claim_frozen_tokens_next(origin, proposal_id);
            &&& result == Ok::<Event, Error>(Event::TokensUnlocked) ==> {
                &&& find_vote(history, proposal_id) is Some
                &&& forall|i: int|
                    0 <= i < history.len() ==> (#[trigger] history[i]).proposal_id <= proposal_id
            }
            &&& result != Ok::<Event, Error>(Event::TokensUnlocked) ==> next == state
            &&& (state.registered.contains(who) && state.proposals.contains_key(proposal_id)
                && state.proposals[proposal_id].end && exists|i: int|
                0 <= i < history.len() && (#[trigger] history[i]).proposal_id > proposal_id) ==> result
                == Ok::<Event, Error>(Event::NoTokensUnlocked) && next == state
        }),
{
    let history = state.history_of(who);
    lemma_latest_vote(history);
    lemma_find_vote(history, proposal_id);
}

/// In a reachable state a successful claim takes the claimed vote out of the
/// account's active votes, keeps the others in their order and sets the
/// account's freeze to the greatest cost among them.
pub proof fn law_claim_releases_the_vote(state: State, who: AccountId, proposal_id: ProposalId)
    requires
        state.inv(),
        state.claim_frozen_tokens_result(RawOrigin::Signed(who), proposal_id) == Ok::<Event, Error>(
            Event::TokensUnlocked,
        ),
    ensures
        ({
            let history = state.history_of(who);
            let next = state.claim_frozen_tokens_next(RawOrigin::Signed(who), proposal_id);
            let i = find_vote(history, proposal_id).unwrap();
            &&& find_vote(history, proposal_id) is Some
            &&& next.history_of(who) == history.remove(i)
            &&& next.frozen_of(who) == max_cost(history.remove(i))
            &&& next.frozen_of(who) <= state.frozen_of(who)
            &&& next.proposals == state.proposals
        }),
{
    let history = state.history_of(who);
    lemma_latest_vote(history);
    lemma_find_vote(history, proposal_id);
    let m = latest_vote(history).unwrap();
    assert(state.history_well_formed(who));
    let i = find_vote(history, proposal_id).unwrap();
    if i < m {
        assert(history[i].proposal_id != history[m].proposal_id);
    }
    assert(i == m);
    lemma_remove_keeps_form(history, m);
    lemma_max_cost_fits(history.remove(m));
    lemma_max_cost_remove(history, m);
    assert(state.frozen_of(who) == max_cost(history));
    let next = state.claim_frozen_tokens_next(RawOrigin::Signed(who), proposal_id);
    assert(next.history_of(who) == history.remove(m));
}

/// An account is registered once: once the root origin has asked for it, the
/// account is registered, and asking again is refused with
/// `VoterAlreadyRegistered` and changes nothing.
pub proof fn law_registering_twice_is_refused(state: State, voter: AccountId)
    ensures
        ({
            let once = state.register_voters_next(RawOrigin::Root, voter);
            &&& once.registered.contains(voter)
            &&& once.register_voters_result(RawOrigin::Root, voter) == Err::<Event, Error>(
                Error::VoterAlreadyRegistered,
            )
            &&& once.register_voters_next(RawOrigin::Root, voter) == once
        }),
{
}

/// An account that is not registered can neither propose nor vote nor
/// claim: it is refused with `NotRegistered`, whether the proposal exists or
/// not, and nothing changes.
pub proof fn law_unregistered_is_refused(
    state: State,
    who: AccountId,
    votes: Balance,
    aye: bool,
    proposal_id: ProposalId,
    description: DescriptionHash,
)
    requires
        !state.registered.contains(who),
    ensures
        ({
            let origin = RawOrigin::Signed(who);
            &&& state.vote_result(origin, votes, aye, proposal_id) == Err::<Event, Error>(
                Error::NotRegistered,
            )
            &&& state.vote_next(origin, votes, aye, proposal_id) == state
            &&& state.make_proposal_result(origin) == Err::<Event, Error>(Error::NotRegistered)
            &&& state.make_proposal_next(origin, description) == state
            &&& state.claim_frozen_tokens_result(origin, proposal_id) == Err::<Event, Error>(
                Error::NotRegistered,
            )
            &&& state.claim_frozen_tokens_next(origin, proposal_id) == state
        }),
{
}

/// An account with [`MAX_VOTES`] active votes cannot vote on one more
/// proposal: the vote is refused with `TooManyVotes` and nothing changes.
pub proof fn law_too_many_votes_is_refused(
    state: State,
    who: AccountId,
    votes: Balance,
    aye: bool,
    proposal_id: ProposalId,
)
    requires
        state.registered.contains(who),
        state.proposals.contains_key(proposal_id),
        !state.proposals[proposal_id].end,
        votes != 0,
        cost(votes) <= state.balances.total_of(who),
        state.history_of(who).len() >= MAX_VOTES,
        find_vote(state.history_of(who), proposal_id) is None,
    ensures
        state.vote_result(RawOrigin::Signed(who), votes, aye, proposal_id) == Err::<Event, Error>(
            Error::TooManyVotes,
        ),
        state.vote_next(RawOrigin::Signed(who), votes, aye, proposal_id) == state,
{
}

/// Whatever an operation answers, a refused operation changes nothing.
pub proof fn law_refusals_change_nothing(
    state: State,
    origin: RawOrigin,
    voter: AccountId,
    votes: Balance,
    aye: bool,
    proposal_id: ProposalId,
    description: DescriptionHash,
)
    ensures
        state.register_voters_result(origin, voter) is Err ==> state.register_voters_next(
            origin,
            voter,
        ) == state,
        state.make_proposal_result(origin) is Err ==> state.make_proposal_next(origin, description)
            == state,
        state.vote_result(origin, votes, aye, proposal_id) is Err ==> state.vote_next(
            origin,
            votes,
            aye,
            proposal_id,
        ) == state,
        state.end_vote_result(origin, proposal_id) is Err ==> state.end_vote_next(origin, proposal_id)
            == state,
        state.claim_frozen_tokens_result(origin, proposal_id) is Err
            ==> state.claim_frozen_tokens_next(origin, proposal_id) == state,
{
}

/// In a reachable state the bookkeeping never fails: a vote is not refused
/// with `Underflow`, and a claim is not refused with `Overflow`.
pub proof fn law_bookkeeping_is_sound(
    state: State,
    origin: RawOrigin,
    votes: Balance,
    aye: bool,
    proposal_id: ProposalId,
)
    requires
        state.inv(),
    ensures
        state.vote_result(origin, votes, aye, proposal_id) != Err::<Event, Error>(Error::Underflow),
        state.claim_frozen_tokens_result(origin, proposal_id) != Err::<Event, Error>(Error::Overflow),
{
    match signer(origin) {
        Some(who) => {
            let history = state.history_of(who);
            assert(state.history_well_formed(who));
            lemma_find_vote(history, proposal_id);
            lemma_latest_vote(history);
            if state.proposals.contains_key(proposal_id) && !state.proposals[proposal_id].end {
                match find_vote(history, proposal_id) {
                    Some(i) => {
                        lemma_tally_in_bounds(history, proposal_id, history[i].aye);
                        lemma_tally_below_bounds(
                            state,
                            who,
                            proposal_id,
                            history[i].aye,
                            account_count(),
                        );
                    },
                    None => {},
                }
            }
            match latest_vote(history) {
                Some(m) => {
                    lemma_remove_keeps_form(history, m);
                },
                None => {},
            }
        },
        None => {},
    }
}

} // verus!
