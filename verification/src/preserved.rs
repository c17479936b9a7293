//! The engine starts in a state of which `State::inv` holds, and every
//! operation keeps it.

use crate::history::{
    costs_fit, find_vote, latest_vote, lemma_find_vote, lemma_latest_vote, max_cost,
};
use crate::model::State;
use crate::reachable::{
    account_count, lemma_max_cost_fits, lemma_max_cost_push, lemma_push_keeps_form,
    lemma_remove_keeps_form, lemma_tally_below_one_change, lemma_tally_below_same,
    lemma_tally_below_unvoted, lemma_tally_in_push, lemma_tally_in_remove,
};
use crate::types::{
    cost, signer, AccountId, Balance, BlockNumber, DescriptionHash, Event, ProposalId, RawOrigin,
    UserVoteInfo,
};
use vstd::prelude::*;

verus! {

/// Where two states hold the same votes, the same proposals and the same
/// freezes, one is reachable if the other is.
proof fn lemma_same_votes_keep_inv(before: State, after: State)
    requires
        before.inv(),
        after.proposals == before.proposals,
        after.proposal_index == before.proposal_index,
        after.histories == before.histories,
        after.balances.frozen == before.balances.frozen,
    ensures
        after.inv(),
{
    assert forall|who: AccountId| #[trigger] after.history_well_formed(who) by {
        assert(before.history_well_formed(who));
    }
    assert forall|who: AccountId| #[trigger] after.frozen_of(who) == max_cost(after.history_of(who)) by {
        assert(before.frozen_of(who) == max_cost(before.history_of(who)));
    }
    assert forall|proposal_id: ProposalId|
        after.proposals.contains_key(proposal_id) && !(
        #[trigger] after.proposals[proposal_id]).end implies {
        &&& after.proposals[proposal_id].ayes == after.tally_of(proposal_id, true)
        &&& after.proposals[proposal_id].nays == after.tally_of(proposal_id, false)
    } by {
        lemma_tally_below_same(before, after, proposal_id, true, account_count());
        lemma_tally_below_same(before, after, proposal_id, false, account_count());
    }
}

/// The engine starts in a reachable state.
pub proof fn lemma_initial_inv(proposal_duration: BlockNumber)
    ensures
        State::initial(proposal_duration).inv(),
{
    let state = State::initial(proposal_duration);
    assert forall|who: AccountId| #[trigger] state.history_well_formed(who) by {}
    assert forall|who: AccountId| #[trigger] state.frozen_of(who) == max_cost(state.history_of(who)) by {}
}

/// Registering a voter keeps the state reachable.
pub proof fn lemma_register_voters_keeps_inv(state: State, origin: RawOrigin, voter: AccountId)
    requires
        state.inv(),
    ensures
        state.register_voters_next(origin, voter).inv(),
{
    lemma_same_votes_keep_inv(state, state.register_voters_next(origin, voter));
}

/// The passing of time keeps the state reachable.
pub proof fn lemma_at_block_keeps_inv(state: State, block_number: BlockNumber)
    requires
        state.inv(),
    ensures
        state.at_block(block_number).inv(),
{
    lemma_same_votes_keep_inv(state, state.at_block(block_number));
}

/// New tokens keep the state reachable.
pub proof fn lemma_minted_keeps_inv(state: State, who: AccountId, amount: Balance)
    requires
        state.inv(),
    ensures
        state.minted(who, amount).inv(),
{
    lemma_same_votes_keep_inv(state, state.minted(who, amount));
}

/// A new proposal keeps the state reachable.
pub proof fn lemma_create_proposal_keeps_inv(state: State, description: DescriptionHash)
    requires
        state.inv(),
    ensures
        state.create_proposal_next(description).inv(),
{
    let next = state.create_proposal_next(description);
    if state.create_proposal_result() is Ok {
        let new_id = state.proposal_index;
        assert forall|proposal_id: ProposalId| #[trigger]
            next.proposals.contains_key(proposal_id) <==> proposal_id < next.proposal_index by {
            assert(state.proposals.contains_key(proposal_id) <==> proposal_id < state.proposal_index);
        }
        assert forall|who: AccountId| #[trigger] next.history_well_formed(who) by {
            assert(state.history_well_formed(who));
        }
        assert forall|who: AccountId| #[trigger] next.frozen_of(who) == max_cost(next.history_of(who)) by {
            assert(state.frozen_of(who) == max_cost(state.history_of(who)));
        }
        assert forall|who: AccountId, i: int|
            0 <= i < next.history_of(who).len() implies (#[trigger] next.history_of(who)[i]).proposal_id
            != new_id by {
            assert(state.history_well_formed(who));
            assert(state.proposals.contains_key(state.history_of(who)[i].proposal_id));
            assert(!state.proposals.contains_key(new_id));
        }
        assert forall|proposal_id: ProposalId|
            next.proposals.contains_key(proposal_id) && !(
            #[trigger] next.proposals[proposal_id]).end implies {
            &&& next.proposals[proposal_id].ayes == next.tally_of(proposal_id, true)
            &&& next.proposals[proposal_id].nays == next.tally_of(proposal_id, false)
        } by {
            if proposal_id == new_id {
                lemma_tally_below_unvoted(next, new_id, true, account_count());
                lemma_tally_below_unvoted(next, new_id, false, account_count());
            } else {
                assert(state.proposals.contains_key(proposal_id));
                assert(!state.proposals[proposal_id].end);
                lemma_tally_below_same(state, next, proposal_id, true, account_count());
                lemma_tally_below_same(state, next, proposal_id, false, account_count());
            }
        }
    }
}

/// Making a proposal keeps the state reachable.
pub proof fn lemma_make_proposal_keeps_inv(
    state: State,
    origin: RawOrigin,
    description: DescriptionHash,
)
    requires
        state.inv(),
    ensures
        state.make_proposal_next(origin, description).inv(),
{
    lemma_create_proposal_keeps_inv(state, description);
}

/// Taking one of the votes of `who` out, with the votes it gave and the
/// freeze it asked for, keeps the state reachable.
proof fn lemma_vote_removed_keeps_inv(state: State, who: AccountId, i: int, after: State)
    requires
        state.inv(),
        0 <= i < state.history_of(who).len(),
        ({
            let vote = state.history_of(who)[i];
            let left = state.history_of(who).remove(i);
            let proposal = state.proposals[vote.proposal_id];
            &&& after.proposal_index == state.proposal_index
            &&& after.histories == state.histories.insert(who, left)
            &&& after.balances == state.with_history(who, left).unfreeze_next(who, left).balances
            &&& {
                ||| proposal.end && after.proposals == state.proposals
                ||| proposal.tally(vote.aye) >= vote.votes && after.proposals
                    == state.proposals.insert(
                    vote.proposal_id,
                    proposal.with_votes_removed(vote.aye, vote.votes),
                )
            }
        }),
    ensures
        after.inv(),
        costs_fit(state.history_of(who).remove(i)),
        find_vote(after.history_of(who), state.history_of(who)[i].proposal_id) is None,
{
    let history = state.history_of(who);
    let vote = history[i];
    let left = history.remove(i);
    let proposal = state.proposals[vote.proposal_id];
    assert(state.history_well_formed(who));
    assert(state.proposals.contains_key(history[i].proposal_id));
    lemma_remove_keeps_form(history, i);
    lemma_max_cost_fits(left);
    assert(after.history_of(who) == left);
    assert forall|proposal_id: ProposalId| #[trigger]
        after.proposals.contains_key(proposal_id) <==> proposal_id < after.proposal_index by {
        assert(state.proposals.contains_key(proposal_id) <==> proposal_id < state.proposal_index);
    }
    assert forall|other: AccountId| #[trigger] after.history_well_formed(other) by {
        assert(state.history_well_formed(other));
        if other == who {
            assert forall|k: int| 0 <= k < left.len() implies after.proposals.contains_key(
                (#[trigger] left[k]).proposal_id,
            ) by {
                let j = choose|j: int| 0 <= j < history.len() && j != i && left[k] == history[j];
                assert(state.proposals.contains_key(history[j].proposal_id));
            }
        } else {
            assert(after.history_of(other) == state.history_of(other));
            let theirs = state.history_of(other);
            assert forall|k: int| 0 <= k < theirs.len() implies after.proposals.contains_key(
                (#[trigger] theirs[k]).proposal_id,
            ) by {
                assert(state.proposals.contains_key(theirs[k].proposal_id));
            }
        }
    }
    assert forall|other: AccountId| #[trigger] after.frozen_of(other) == max_cost(after.history_of(other)) by {
        assert(state.frozen_of(other) == max_cost(state.history_of(other)));
        if other != who {
            assert(after.history_of(other) == state.history_of(other));
        }
    }
    assert forall|proposal_id: ProposalId|
        after.proposals.contains_key(proposal_id) && !(
        #[trigger] after.proposals[proposal_id]).end implies {
        &&& after.proposals[proposal_id].ayes == after.tally_of(proposal_id, true)
        &&& after.proposals[proposal_id].nays == after.tally_of(proposal_id, false)
    } by {
        assert(state.proposals.contains_key(proposal_id));
        assert forall|other: AccountId| other != who implies #[trigger] after.history_of(other)
            == state.history_of(other) by {}
        lemma_tally_below_one_change(state, after, who, proposal_id, true, account_count());
        lemma_tally_below_one_change(state, after, who, proposal_id, false, account_count());
        lemma_tally_in_remove(history, i, proposal_id, true);
        lemma_tally_in_remove(history, i, proposal_id, false);
        if proposal_id != vote.proposal_id {
            assert(after.proposals[proposal_id] == state.proposals[proposal_id]);
            assert(!state.proposals[proposal_id].end);
        } else {
            assert(!state.proposals[proposal_id].end);
        }
    }
}

/// One more vote of `who`, with the votes it gives and the freeze it asks
/// for, keeps the state reachable.
proof fn lemma_cast_keeps_inv(
    state: State,
    who: AccountId,
    votes: Balance,
    aye: bool,
    proposal_id: ProposalId,
)
    requires
        state.inv(),
        state.proposals.contains_key(proposal_id),
        !state.proposals[proposal_id].end,
        find_vote(state.history_of(who), proposal_id) is None,
        cost(votes) <= Balance::MAX,
        state.cast_result(who, votes, aye, proposal_id) is Ok,
    ensures
        state.cast(who, votes, aye, proposal_id).inv(),
{
    let after = state.cast(who, votes, aye, proposal_id);
    let history = state.history_of(who);
    let vote = UserVoteInfo { proposal_id, aye, votes };
    let longer = history.push(vote);
    assert(state.history_well_formed(who));
    assert(state.frozen_of(who) == max_cost(history));
    lemma_push_keeps_form(history, vote);
    lemma_max_cost_push(history, vote);
    lemma_max_cost_fits(history);
    assert(cost(votes) >= 0) by (nonlinear_arith);
    assert(after.history_of(who) == longer);
    assert forall|id: ProposalId| #[trigger]
        after.proposals.contains_key(id) <==> id < after.proposal_index by {
        assert(state.proposals.contains_key(id) <==> id < state.proposal_index);
    }
    assert forall|other: AccountId| #[trigger] after.history_well_formed(other) by {
        assert(state.history_well_formed(other));
        if other == who {
            assert forall|k: int| 0 <= k < longer.len() implies after.proposals.contains_key(
                (#[trigger] longer[k]).proposal_id,
            ) by {
                if k < history.len() {
                    assert(longer[k] == history[k]);
                    assert(state.proposals.contains_key(history[k].proposal_id));
                }
            }
        } else {
            assert(after.history_of(other) == state.history_of(other));
            let theirs = state.history_of(other);
            assert forall|k: int| 0 <= k < theirs.len() implies after.proposals.contains_key(
                (#[trigger] theirs[k]).proposal_id,
            ) by {
                assert(state.proposals.contains_key(theirs[k].proposal_id));
            }
        }
    }
    assert forall|other: AccountId| #[trigger] after.frozen_of(other) == max_cost(after.history_of(other)) by {
        assert(state.frozen_of(other) == max_cost(state.history_of(other)));
        if other != who {
            assert(after.history_of(other) == state.history_of(other));
        }
    }
    assert forall|id: ProposalId|
        after.proposals.contains_key(id) && !(#[trigger] after.proposals[id]).end implies {
        &&& after.proposals[id].ayes == after.tally_of(id, true)
        &&& after.proposals[id].nays == after.tally_of(id, false)
    } by {
        assert(state.proposals.contains_key(id));
        assert forall|other: AccountId| other != who implies #[trigger] after.history_of(other)
            == state.history_of(other) by {}
        lemma_tally_below_one_change(state, after, who, id, true, account_count());
        lemma_tally_below_one_change(state, after, who, id, false, account_count());
        lemma_tally_in_push(history, vote, id, true);
        lemma_tally_in_push(history, vote, id, false);
        if id != proposal_id {
            assert(after.proposals[id] == state.proposals[id]);
        }
        assert(!state.proposals[id].end);
    }
}

/// Voting keeps the state reachable.
pub proof fn lemma_vote_keeps_inv(
    state: State,
    origin: RawOrigin,
    votes: Balance,
    aye: bool,
    proposal_id: ProposalId,
)
    requires
        state.inv(),
    ensures
        state.vote_next(origin, votes, aye, proposal_id).inv(),
{
    if state.vote_result(origin, votes, aye, proposal_id) is Ok {
        let who = signer(origin).unwrap();
        let history = state.history_of(who);
        let withdrawn = state.withdrawn(who, proposal_id);
        lemma_find_vote(history, proposal_id);
        match find_vote(history, proposal_id) {
            Some(i) => {
                lemma_vote_removed_keeps_inv(state, who, i, withdrawn);
            },
            None => {},
        }
        if votes != 0 {
            lemma_cast_keeps_inv(withdrawn, who, votes, aye, proposal_id);
        }
    }
}

/// Closing a proposal keeps the state reachable.
pub proof fn lemma_end_vote_keeps_inv(state: State, origin: RawOrigin, proposal_id: ProposalId)
    requires
        state.inv(),
    ensures
        state.end_vote_next(origin, proposal_id).inv(),
{
    let next = state.end_vote_next(origin, proposal_id);
    if state.end_vote_result(origin, proposal_id) is Ok {
        assert forall|id: ProposalId| #[trigger]
            next.proposals.contains_key(id) <==> id < next.proposal_index by {
            assert(state.proposals.contains_key(id) <==> id < state.proposal_index);
        }
        assert forall|who: AccountId| #[trigger] next.history_well_formed(who) by {
            assert(state.history_well_formed(who));
            let theirs = state.history_of(who);
            assert forall|k: int| 0 <= k < theirs.len() implies next.proposals.contains_key(
                (#[trigger] theirs[k]).proposal_id,
            ) by {
                assert(state.proposals.contains_key(theirs[k].proposal_id));
            }
        }
        assert forall|who: AccountId| #[trigger] next.frozen_of(who) == max_cost(next.history_of(who)) by {
            assert(state.frozen_of(who) == max_cost(state.history_of(who)));
        }
        assert forall|id: ProposalId|
            next.proposals.contains_key(id) && !(#[trigger] next.proposals[id]).end implies {
            &&& next.proposals[id].ayes == next.tally_of(id, true)
            &&& next.proposals[id].nays == next.tally_of(id, false)
        } by {
            assert(id != proposal_id);
            assert(next.proposals[id] == state.proposals[id]);
            assert(!state.proposals[id].end);
            lemma_tally_below_same(state, next, id, true, account_count());
            lemma_tally_below_same(state, next, id, false, account_count());
        }
    }
}

/// Claiming frozen tokens keeps the state reachable.
pub proof fn lemma_claim_frozen_tokens_keeps_inv(
    state: State,
    origin: RawOrigin,
    proposal_id: ProposalId,
)
    requires
        state.inv(),
    ensures
        state.claim_frozen_tokens_next(origin, proposal_id).inv(),
{
    let next = state.claim_frozen_tokens_next(origin, proposal_id);
    match (signer(origin), state.claim_frozen_tokens_result(origin, proposal_id)) {
        (Some(who), Ok(Event::TokensUnlocked)) => {
            let history = state.history_of(who);
            lemma_latest_vote(history);
            let i = latest_vote(history).unwrap();
            lemma_vote_removed_keeps_inv(state, who, i, next);
        },
        _ => {},
    }
}

} // verus!
