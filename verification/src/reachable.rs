//! What holds of the engine in every state that it can reach by registering,
//! proposing, voting, closing, claiming, minting and the passing of time.

use crate::history::{
    costs_fit, distinct_proposals, find_vote, lemma_find_vote, lemma_max_cost, max_cost, tally_in,
};
use crate::model::State;
use crate::types::{cost, AccountId, Balance, ProposalId, UserVoteInfo, MAX_VOTES};
use vstd::prelude::*;

verus! {

/// The number of accounts there can be.
pub open spec fn account_count() -> nat {
    0x1_0000_0000_0000_0000
}

impl State {
    /// The votes that the accounts numbered below `n` together give proposal
    /// `proposal_id` in direction `aye`.
    pub open spec fn tally_below(self, proposal_id: ProposalId, aye: bool, n: nat) -> int
        decreases n,
    {
        if n == 0 {
            0
        } else {
            self.tally_below(proposal_id, aye, (n - 1) as nat) + tally_in(
                self.history_of((n - 1) as AccountId),
                proposal_id,
                aye,
            )
        }
    }

    /// The votes that all accounts together give proposal `proposal_id` in
    /// direction `aye`.
    pub open spec fn tally_of(self, proposal_id: ProposalId, aye: bool) -> int {
        self.tally_below(proposal_id, aye, account_count())
    }

    /// Every account has frozen exactly the cost of its costliest active
    /// vote, and nothing if it has none.
    pub open spec fn freezes_follow_votes(self) -> bool {
        forall|who: AccountId| #[trigger] self.frozen_of(who) == max_cost(self.history_of(who))
    }

    /// The tallies of every open proposal are the votes that the accounts'
    /// active votes give it.
    pub open spec fn tallies_follow_votes(self) -> bool {
        forall|proposal_id: ProposalId|
            self.proposals.contains_key(proposal_id) && !(
            #[trigger] self.proposals[proposal_id]).end ==> {
                &&& self.proposals[proposal_id].ayes == self.tally_of(proposal_id, true)
                &&& self.proposals[proposal_id].nays == self.tally_of(proposal_id, false)
            }
    }

    /// The active votes of `who` are at most [`MAX_VOTES`], no two of them on
    /// the same proposal, each on a proposal that was made and each at a
    /// cost that is an amount of tokens.
    pub open spec fn history_well_formed(self, who: AccountId) -> bool {
        let history = self.history_of(who);
        &&& history.len() <= MAX_VOTES
        &&& distinct_proposals(history)
        &&& costs_fit(history)
        &&& forall|i: int|
            0 <= i < history.len() ==> self.proposals.contains_key(
                (#[trigger] history[i]).proposal_id,
            )
    }

    /// The proposals made are those with an id below the next one.
    pub open spec fn ids_in_order(self) -> bool {
        forall|proposal_id: ProposalId|
            #[trigger] self.proposals.contains_key(proposal_id) <==> proposal_id
                < self.proposal_index
    }

    /// What holds of every state that the engine can reach.
    pub open spec fn inv(self) -> bool {
        &&& self.ids_in_order()
        &&& forall|who: AccountId| #[trigger] self.history_well_formed(who)
        &&& self.freezes_follow_votes()
        &&& self.tallies_follow_votes()
    }
}

/// A vote adds its votes to the tally of its proposal and direction, and to
/// no other.
pub proof fn lemma_tally_in_push(
    history: Seq<UserVoteInfo>,
    vote: UserVoteInfo,
    proposal_id: ProposalId,
    aye: bool,
)
    ensures
        tally_in(history.push(vote), proposal_id, aye) == tally_in(history, proposal_id, aye) + if vote.proposal_id
            == proposal_id && vote.aye == aye {
            vote.votes as int
        } else {
            0
        },
{
    assert(history.push(vote).drop_last() == history);
}

/// Taking a vote out takes its votes off the tally of its proposal and
/// direction, and off no other.
pub proof fn lemma_tally_in_remove(
    history: Seq<UserVoteInfo>,
    i: int,
    proposal_id: ProposalId,
    aye: bool,
)
    requires
        0 <= i < history.len(),
    ensures
        tally_in(history.remove(i), proposal_id, aye) == tally_in(history, proposal_id, aye) - if history[i].proposal_id
            == proposal_id && history[i].aye == aye {
            history[i].votes as int
        } else {
            0
        },
    decreases history.len(),
{
    if i == history.len() - 1 {
        assert(history.remove(i) == history.drop_last());
    } else {
        lemma_tally_in_remove(history.drop_last(), i, proposal_id, aye);
        assert(history.remove(i).drop_last() == history.drop_last().remove(i));
        assert(history.remove(i).last() == history.last());
    }
}

/// A tally is not negative, and not less than any one vote that counts
/// towards it.
pub proof fn lemma_tally_in_bounds(history: Seq<UserVoteInfo>, proposal_id: ProposalId, aye: bool)
    ensures
        0 <= tally_in(history, proposal_id, aye),
        forall|i: int|
            0 <= i < history.len() && (#[trigger] history[i]).proposal_id == proposal_id
                && history[i].aye == aye ==> history[i].votes <= tally_in(history, proposal_id, aye),
        (forall|i: int| 0 <= i < history.len() ==> (#[trigger] history[i]).proposal_id != proposal_id)
            ==> tally_in(history, proposal_id, aye) == 0,
    decreases history.len(),
{
    if history.len() > 0 {
        let shorter = history.drop_last();
        lemma_tally_in_bounds(shorter, proposal_id, aye);
        assert forall|i: int|
            0 <= i < history.len() && (#[trigger] history[i]).proposal_id == proposal_id
                && history[i].aye == aye implies history[i].votes <= tally_in(
            history,
            proposal_id,
            aye,
        ) by {
            if i < shorter.len() {
                assert(shorter[i] == history[i]);
            }
        }
        if forall|i: int| 0 <= i < history.len() ==> (#[trigger] history[i]).proposal_id != proposal_id {
            assert forall|i: int| 0 <= i < shorter.len() implies (#[trigger] shorter[i]).proposal_id
                != proposal_id by {
                assert(shorter[i] == history[i]);
            }
            assert(history[history.len() - 1].proposal_id != proposal_id);
        }
    }
}

/// The tally over all accounts changes by what changes in the one account
/// whose votes differ.
pub proof fn lemma_tally_below_one_change(
    before: State,
    after: State,
    who: AccountId,
    proposal_id: ProposalId,
    aye: bool,
    n: nat,
)
    requires
        n <= account_count(),
        forall|other: AccountId| other != who ==> #[trigger] after.history_of(other) == before.history_of(other),
    ensures
        after.tally_below(proposal_id, aye, n) == before.tally_below(proposal_id, aye, n) + if who < n {
            tally_in(after.history_of(who), proposal_id, aye) - tally_in(
                before.history_of(who),
                proposal_id,
                aye,
            )
        } else {
            0
        },
    decreases n,
{
    if n > 0 {
        lemma_tally_below_one_change(before, after, who, proposal_id, aye, (n - 1) as nat);
        let last = (n - 1) as AccountId;
        if last != who {
            assert(after.history_of(last) == before.history_of(last));
        }
    }
}

/// The tally over all accounts is the same in two states in which every
/// account has the same votes.
pub proof fn lemma_tally_below_same(
    before: State,
    after: State,
    proposal_id: ProposalId,
    aye: bool,
    n: nat,
)
    requires
        n <= account_count(),
        forall|who: AccountId| #[trigger] after.history_of(who) == before.history_of(who),
    ensures
        after.tally_below(proposal_id, aye, n) == before.tally_below(proposal_id, aye, n),
    decreases n,
{
    if n > 0 {
        lemma_tally_below_same(before, after, proposal_id, aye, (n - 1) as nat);
        let last = (n - 1) as AccountId;
        assert(after.history_of(last) == before.history_of(last));
    }
}

/// A proposal that no account has voted on has no votes.
pub proof fn lemma_tally_below_unvoted(state: State, proposal_id: ProposalId, aye: bool, n: nat)
    requires
        n <= account_count(),
        forall|who: AccountId, i: int|
            0 <= i < state.history_of(who).len() ==> (#[trigger] state.history_of(who)[i]).proposal_id
                != proposal_id,
    ensures
        state.tally_below(proposal_id, aye, n) == 0,
    decreases n,
{
    if n > 0 {
        lemma_tally_below_unvoted(state, proposal_id, aye, (n - 1) as nat);
        let last = (n - 1) as AccountId;
        let history = state.history_of(last);
        assert forall|i: int| 0 <= i < history.len() implies (#[trigger] history[i]).proposal_id
            != proposal_id by {
            assert(state.history_of(last)[i].proposal_id != proposal_id);
        }
        lemma_tally_in_bounds(history, proposal_id, aye);
    }
}

/// The tally over all accounts is not less than what one of them gives.
pub proof fn lemma_tally_below_bounds(
    state: State,
    who: AccountId,
    proposal_id: ProposalId,
    aye: bool,
    n: nat,
)
    requires
        n <= account_count(),
    ensures
        0 <= state.tally_below(proposal_id, aye, n),
        who < n ==> tally_in(state.history_of(who), proposal_id, aye) <= state.tally_below(
            proposal_id,
            aye,
            n,
        ),
    decreases n,
{
    if n > 0 {
        lemma_tally_below_bounds(state, who, proposal_id, aye, (n - 1) as nat);
        lemma_tally_in_bounds(state.history_of((n - 1) as AccountId), proposal_id, aye);
    }
}

/// The greatest cost among votes whose costs are amounts is an amount.
pub proof fn lemma_max_cost_fits(history: Seq<UserVoteInfo>)
    requires
        costs_fit(history),
    ensures
        0 <= max_cost(history) <= Balance::MAX,
{
    lemma_max_cost(history);
    if history.len() > 0 {
        let k = choose|i: int| 0 <= i < history.len() && cost(#[trigger] history[i].votes) == max_cost(history);
        assert(cost(history[k].votes) <= Balance::MAX);
    }
}

/// With one more vote the greatest cost is the new vote's cost or the
/// greatest cost before, whichever is more.
pub proof fn lemma_max_cost_push(history: Seq<UserVoteInfo>, vote: UserVoteInfo)
    ensures
        max_cost(history.push(vote)) == if cost(vote.votes) > max_cost(history) {
            cost(vote.votes)
        } else {
            max_cost(history)
        },
{
    assert(history.push(vote).drop_last() == history);
}

/// With one vote less the greatest cost is not more than before.
pub proof fn lemma_max_cost_remove(history: Seq<UserVoteInfo>, i: int)
    requires
        0 <= i < history.len(),
    ensures
        max_cost(history.remove(i)) <= max_cost(history),
{
    let left = history.remove(i);
    lemma_max_cost(left);
    lemma_max_cost(history);
    if left.len() > 0 {
        let k = choose|k: int| 0 <= k < left.len() && cost(#[trigger] left[k].votes) == max_cost(left);
        if k < i {
            assert(left[k] == history[k]);
        } else {
            assert(left[k] == history[k + 1]);
        }
    }
}

/// Votes on distinct proposals stay so, their costs stay amounts and they
/// stay on the proposals they were on when one of them is taken out; and
/// where it was the vote on `proposal_id`, none on that proposal is left.
pub proof fn lemma_remove_keeps_form(history: Seq<UserVoteInfo>, i: int)
    requires
        0 <= i < history.len(),
        distinct_proposals(history),
        costs_fit(history),
    ensures
        distinct_proposals(history.remove(i)),
        costs_fit(history.remove(i)),
        find_vote(history.remove(i), history[i].proposal_id) is None,
        forall|k: int|
            0 <= k < history.remove(i).len() ==> exists|j: int|
                0 <= j < history.len() && j != i && #[trigger] history.remove(i)[k] == history[j],
{
    let left = history.remove(i);
    assert forall|k: int| 0 <= k < left.len() implies exists|j: int|
        0 <= j < history.len() && j != i && #[trigger] left[k] == history[j] by {
        if k < i {
            assert(left[k] == history[k]);
        } else {
            assert(left[k] == history[k + 1]);
        }
    }
    assert forall|a: int, b: int| 0 <= a < b < left.len() implies (#[trigger] left[a]).proposal_id != (
    #[trigger] left[b]).proposal_id by {
        let a2 = if a < i { a } else { a + 1 };
        let b2 = if b < i { b } else { b + 1 };
        assert(left[a] == history[a2]);
        assert(left[b] == history[b2]);
    }
    assert forall|k: int| 0 <= k < left.len() implies cost(#[trigger] left[k].votes) <= Balance::MAX by {
        let k2 = if k < i { k } else { k + 1 };
        assert(left[k] == history[k2]);
        assert(cost(history[k2].votes) <= Balance::MAX);
    }
    lemma_find_vote(left, history[i].proposal_id);
    if find_vote(left, history[i].proposal_id) is Some {
        let k = find_vote(left, history[i].proposal_id).unwrap();
        let k2 = if k < i { k } else { k + 1 };
        assert(left[k] == history[k2]);
        if k2 < i {
            assert(history[k2].proposal_id != history[i].proposal_id);
        } else {
            assert(history[i].proposal_id != history[k2].proposal_id);
        }
    }
}

/// Votes on distinct proposals stay so with one more vote on a proposal that
/// none of them is on.
pub proof fn lemma_push_keeps_form(history: Seq<UserVoteInfo>, vote: UserVoteInfo)
    requires
        distinct_proposals(history),
        costs_fit(history),
        find_vote(history, vote.proposal_id) is None,
        cost(vote.votes) <= Balance::MAX,
    ensures
        distinct_proposals(history.push(vote)),
        costs_fit(history.push(vote)),
{
    let longer = history.push(vote);
    lemma_find_vote(history, vote.proposal_id);
    assert forall|a: int, b: int| 0 <= a < b < longer.len() implies (#[trigger] longer[a]).proposal_id != (
    #[trigger] longer[b]).proposal_id by {
        assert(longer[a] == history[a]);
        if b < history.len() {
            assert(longer[b] == history[b]);
        }
    }
    assert forall|k: int| 0 <= k < longer.len() implies cost(#[trigger] longer[k].votes) <= Balance::MAX by {
        if k < history.len() {
            assert(longer[k] == history[k]);
            assert(cost(history[k].votes) <= Balance::MAX);
        }
    }
}

} // verus!
