//! What can be read off one account's votes, taken as a sequence in the order
//! in which they were first cast.

use crate::types::{cost, Balance, ProposalId, UserVoteInfo};
use vstd::prelude::*;

verus! {

/// The position of the first vote on `proposal_id`, if there is one.
pub open spec fn find_vote(s: Seq<UserVoteInfo>, proposal_id: ProposalId) -> Option<int>
    decreases s.len(),
{
    if s.len() == 0 {
        None
    } else {
        match find_vote(s.drop_last(), proposal_id) {
            Some(i) => Some(i),
            None => if s.last().proposal_id == proposal_id {
                Some(s.len() - 1)
            } else {
                None
            },
        }
    }
}

/// The position of the vote on the highest-numbered proposal; of several on
/// that proposal, the last. `None` only for an account without votes.
pub open spec fn latest_vote(s: Seq<UserVoteInfo>) -> Option<int>
    decreases s.len(),
{
    if s.len() == 0 {
        None
    } else {
        match latest_vote(s.drop_last()) {
            Some(i) => if s[i].proposal_id > s.last().proposal_id {
                Some(i)
            } else {
                Some(s.len() - 1)
            },
            None => Some(s.len() - 1),
        }
    }
}

/// Whether vote `a` binds at least as much as vote `b`: it costs more, or the
/// same on a proposal numbered no lower.
pub open spec fn outranks(a: UserVoteInfo, b: UserVoteInfo) -> bool {
    cost(a.votes) > cost(b.votes) || (cost(a.votes) == cost(b.votes) && a.proposal_id
        >= b.proposal_id)
}

/// The position of the costliest vote. Of several that cost the same it is
/// the one on the highest-numbered proposal, and of several on that proposal
/// the last.
pub open spec fn binding_vote(s: Seq<UserVoteInfo>) -> Option<int>
    decreases s.len(),
{
    if s.len() == 0 {
        None
    } else {
        match binding_vote(s.drop_last()) {
            Some(i) => if outranks(s.last(), s[i]) {
                Some(s.len() - 1)
            } else {
                Some(i)
            },
            None => Some(s.len() - 1),
        }
    }
}

/// The greatest cost of a single vote in `s`; 0 where there is none.
pub open spec fn max_cost(s: Seq<UserVoteInfo>) -> int
    decreases s.len(),
{
    if s.len() == 0 {
        0
    } else {
        let rest = max_cost(s.drop_last());
        if cost(s.last().votes) > rest {
            cost(s.last().votes)
        } else {
            rest
        }
    }
}

/// Whether the cost of every vote in `s` is an amount of tokens.
pub open spec fn costs_fit(s: Seq<UserVoteInfo>) -> bool {
    forall|i: int| 0 <= i < s.len() ==> cost(#[trigger] s[i].votes) <= Balance::MAX
}

/// Whether no two votes in `s` are on the same proposal.
pub open spec fn distinct_proposals(s: Seq<UserVoteInfo>) -> bool {
    forall|i: int, j: int|
        0 <= i < j < s.len() ==> (#[trigger] s[i]).proposal_id != (#[trigger] s[j]).proposal_id
}

/// The votes that `s` gives proposal `proposal_id` in direction `aye`.
pub open spec fn tally_in(s: Seq<UserVoteInfo>, proposal_id: ProposalId, aye: bool) -> int
    decreases s.len(),
{
    if s.len() == 0 {
        0
    } else {
        tally_in(s.drop_last(), proposal_id, aye) + if s.last().proposal_id == proposal_id
            && s.last().aye == aye {
            s.last().votes as int
        } else {
            0
        }
    }
}

/// `find_vote` gives the first vote on the proposal, and `None` exactly where
/// the account has not voted on it.
pub proof fn lemma_find_vote(s: Seq<UserVoteInfo>, proposal_id: ProposalId)
    ensures
        match find_vote(s, proposal_id) {
            Some(i) => 0 <= i < s.len() && s[i].proposal_id == proposal_id && forall|j: int|
                0 <= j < i ==> (#[trigger] s[j]).proposal_id != proposal_id,
            None => forall|j: int| 0 <= j < s.len() ==> (#[trigger] s[j]).proposal_id != proposal_id,
        },
    decreases s.len(),
{
    if s.len() > 0 {
        let t = s.drop_last();
        lemma_find_vote(t, proposal_id);
        assert(forall|j: int| 0 <= j < t.len() ==> t[j] == s[j]);
        match find_vote(t, proposal_id) {
            Some(i) => {
                assert(s[i] == t[i]);
                assert forall|j: int| 0 <= j < i implies (#[trigger] s[j]).proposal_id
                    != proposal_id by {
                    assert(s[j] == t[j]);
                }
            },
            None => {
                assert forall|j: int| 0 <= j < t.len() implies (#[trigger] s[j]).proposal_id
                    != proposal_id by {
                    assert(s[j] == t[j]);
                }
            },
        }
    }
}

/// `latest_vote` gives a vote on the highest-numbered proposal that the
/// account has voted on, and no later vote is on that proposal.
pub proof fn lemma_latest_vote(s: Seq<UserVoteInfo>)
    ensures
        match latest_vote(s) {
            Some(i) => 0 <= i < s.len() && (forall|j: int|
                0 <= j < s.len() ==> (#[trigger] s[j]).proposal_id <= s[i].proposal_id)
                && forall|j: int|
                i < j < s.len() ==> (#[trigger] s[j]).proposal_id < s[i].proposal_id,
            None => s.len() == 0,
        },
    decreases s.len(),
{
    if s.len() > 0 {
        let t = s.drop_last();
        lemma_latest_vote(t);
        match latest_vote(t) {
            Some(i) => {
                assert(s[i] == t[i]);
                assert forall|j: int| 0 <= j < t.len() implies (#[trigger] s[j]).proposal_id
                    <= t[i].proposal_id by {
                    assert(s[j] == t[j]);
                }
                assert forall|j: int| i < j < t.len() implies (#[trigger] s[j]).proposal_id
                    < t[i].proposal_id by {
                    assert(s[j] == t[j]);
                }
            },
            None => {},
        }
    }
}

/// `max_cost` is the cost of one of the votes and no vote costs more.
pub proof fn lemma_max_cost(s: Seq<UserVoteInfo>)
    ensures
        forall|i: int| 0 <= i < s.len() ==> cost(#[trigger] s[i].votes) <= max_cost(s),
        s.len() == 0 ==> max_cost(s) == 0,
        s.len() > 0 ==> exists|i: int| 0 <= i < s.len() && cost(#[trigger] s[i].votes) == max_cost(s),
        0 <= max_cost(s),
    decreases s.len(),
{
    if s.len() > 0 {
        lemma_max_cost(s.drop_last());
        let n = s.len() - 1;
        assert(cost(s.last().votes) >= 0) by (nonlinear_arith);
        if s.len() > 1 {
            let k = choose|i: int|
                0 <= i < s.drop_last().len() && cost(#[trigger] s.drop_last()[i].votes) == max_cost(
                    s.drop_last(),
                );
            assert(s[k] == s.drop_last()[k]);
            if cost(s.last().votes) > max_cost(s.drop_last()) {
                assert(cost(s[n].votes) == max_cost(s));
            } else {
                assert(cost(s[k].votes) == max_cost(s));
            }
        } else {
            assert(cost(s[n].votes) == max_cost(s));
        }
        assert forall|i: int| 0 <= i < s.len() implies cost(#[trigger] s[i].votes) <= max_cost(
            s,
        ) by {
            if i < n {
                assert(s[i] == s.drop_last()[i]);
            }
        }
    }
}

} // verus!
