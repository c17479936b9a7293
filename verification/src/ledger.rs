//! One account's active votes: a list bounded by [`MAX_VOTES`], kept in the
//! order in which the votes were first cast.
//!
//! The list is a `BoundedVec` of `frame_support`. Verus does not look inside
//! it: what it holds is named by [`bounded_items`], and the few methods used
//! here are reached through wrappers whose contracts are taken on trust.

use crate::history::{binding_vote, costs_fit, find_vote, latest_vote, lemma_find_vote, max_cost};
use crate::types::{cost, required_tokens, Balance, Error, ProposalId, UserVoteInfo, MAX_VOTES};
use frame_support::traits::ConstU32;
use frame_support::BoundedVec;
use vstd::prelude::*;

verus! {

/// `BoundedVec` of `bounded_collections`, as `frame_support` hands it on: a
/// vector that never holds more items than its bound `S`. Values of it are
/// carried through and never looked into.
#[verifier::external_type_specification]
#[verifier::external_body]
#[verifier::reject_recursive_types(T)]
#[verifier::reject_recursive_types(S)]
pub struct ExBoundedVec<T, S>(BoundedVec<T, S>);

/// `ConstU32` of `bounded_collections`, as `frame_support` hands it on: the
/// type that stands for the number `T` where a bound is asked for.
#[verifier::external_type_specification]
#[verifier::external_body]
pub struct ExConstU32<const T: u32>(ConstU32<T>);

/// The votes that a bounded vector holds, first to last.
pub uninterp spec fn bounded_items(v: BoundedVec<UserVoteInfo, ConstU32<MAX_VOTES>>) -> Seq<
    UserVoteInfo,
>;

/// `BoundedVec::new`: a vector that holds nothing.
#[verifier::external_body]
fn bounded_new() -> (v: BoundedVec<UserVoteInfo, ConstU32<MAX_VOTES>>)
    ensures
        bounded_items(v) == Seq::<UserVoteInfo>::empty(),
{
    BoundedVec::new()
}

/// `len` of the `Vec` that a `BoundedVec` dereferences to: the number of
/// items held.
#[verifier::external_body]
fn bounded_len(v: &BoundedVec<UserVoteInfo, ConstU32<MAX_VOTES>>) -> (n: usize)
    ensures
        n == bounded_items(*v).len(),
{
    v.len()
}

/// `Index::index` of `BoundedVec`: the item at `index`, which must be in
/// bounds.
#[verifier::external_body]
fn bounded_index(v: &BoundedVec<UserVoteInfo, ConstU32<MAX_VOTES>>, index: usize) -> (item:
    UserVoteInfo)
    requires
        index < bounded_items(*v).len(),
    ensures
        item == bounded_items(*v)[index as int],
{
    v[index]
}

/// `BoundedVec::try_push`: appends `element` where fewer items are held than
/// the bound, and otherwise changes nothing and hands `element` back.
#[verifier::external_body]
fn bounded_try_push(
    v: &mut BoundedVec<UserVoteInfo, ConstU32<MAX_VOTES>>,
    element: UserVoteInfo,
) -> (rejected: Option<UserVoteInfo>)
    ensures
        rejected is None <==> bounded_items(*old(v)).len() < MAX_VOTES,
        rejected is None ==> bounded_items(*final(v)) == bounded_items(*old(v)).push(element),
        rejected is Some ==> rejected == Some(element) && bounded_items(*final(v))
            == bounded_items(*old(v)),
{
    v.try_push(element).err()
}

/// `BoundedVec::remove`: takes out the item at `index`, which must be in
/// bounds, and closes the gap; the other items keep their order.
#[verifier::external_body]
fn bounded_remove(v: &mut BoundedVec<UserVoteInfo, ConstU32<MAX_VOTES>>, index: usize) -> (item:
    UserVoteInfo)
    requires
        index < bounded_items(*old(v)).len(),
    ensures
        item == bounded_items(*old(v))[index as int],
        bounded_items(*final(v)) == bounded_items(*old(v)).remove(index as int),
{
    v.remove(index)
}

/// `Clone::clone` of `BoundedVec`: a vector that holds the same items.
#[verifier::external_body]
fn bounded_clone(v: &BoundedVec<UserVoteInfo, ConstU32<MAX_VOTES>>) -> (r: BoundedVec<
    UserVoteInfo,
    ConstU32<MAX_VOTES>,
>)
    ensures
        bounded_items(r) == bounded_items(*v),
{
    v.clone()
}

/// One account's active votes, in the order in which they were first cast.
/// It never holds more than [`MAX_VOTES`] of them.
pub struct VoteLedger {
    items: BoundedVec<UserVoteInfo, ConstU32<MAX_VOTES>>,
}

impl View for VoteLedger {
    type V = Seq<UserVoteInfo>;

    closed spec fn view(&self) -> Seq<UserVoteInfo> {
        bounded_items(self.items)
    }
}

impl VoteLedger {
    /// A ledger without votes.
    pub fn new() -> (r: Self)
        ensures
            r@ == Seq::<UserVoteInfo>::empty(),
    {
        VoteLedger { items: bounded_new() }
    }

    /// A ledger that holds the same votes in the same order.
    pub fn duplicate(&self) -> (r: Self)
        ensures
            r@ == self@,
    {
        VoteLedger { items: bounded_clone(&self.items) }
    }

    /// The number of votes held.
    pub fn len(&self) -> (n: usize)
        ensures
            n == self@.len(),
    {
        bounded_len(&self.items)
    }

    /// The vote at `index`, if there is one.
    pub fn get(&self, index: usize) -> (r: Option<UserVoteInfo>)
        ensures
            r == if index < self@.len() {
                Some(self@[index as int])
            } else {
                None
            },
    {
        if index < bounded_len(&self.items) {
            Some(bounded_index(&self.items, index))
        } else {
            None
        }
    }

    /// The votes held, first to last.
    pub fn to_vec(&self) -> (r: Vec<UserVoteInfo>)
        ensures
            r@ == self@,
    {
        let n = bounded_len(&self.items);
        let mut out: Vec<UserVoteInfo> = Vec::new();
        let mut i: usize = 0;
        while i < n
            invariant
                n == self@.len(),
                i <= n,
                out@ == self@.take(i as int),
            decreases n - i,
        {
            out.push(bounded_index(&self.items, i));
            assert(self@.take(i + 1) == self@.take(i as int).push(self@[i as int]));
            i += 1;
        }
        assert(self@.take(n as int) == self@);
        out
    }

    /// Appends `vote` where fewer than [`MAX_VOTES`] votes are held, and
    /// otherwise refuses with `TooManyVotes` and changes nothing.
    pub fn try_push(&mut self, vote: UserVoteInfo) -> (r: Result<(), Error>)
        ensures
            old(self)@.len() < MAX_VOTES ==> r is Ok && final(self)@ == old(self)@.push(vote),
            old(self)@.len() >= MAX_VOTES ==> r == Err::<(), Error>(Error::TooManyVotes)
                && final(self)@ == old(self)@,
    {
        match bounded_try_push(&mut self.items, vote) {
            None => Ok(()),
            Some(_) => Err(Error::TooManyVotes),
        }
    }

    /// Takes out the vote at `index` and hands it back; the others keep their
    /// order. Where `index` is out of bounds nothing changes.
    pub fn remove(&mut self, index: usize) -> (r: Option<UserVoteInfo>)
        ensures
            index < old(self)@.len() ==> r == Some(old(self)@[index as int])
                && final(self)@ == old(self)@.remove(index as int),
            index >= old(self)@.len() ==> r is None && final(self)@ == old(self)@,
    {
        if index < bounded_len(&self.items) {
            Some(bounded_remove(&mut self.items, index))
        } else {
            None
        }
    }

    /// The position of the vote on `proposal_id`, if the account has one.
    pub fn find(&self, proposal_id: ProposalId) -> (r: Option<usize>)
        ensures
            match r {
                Some(i) => find_vote(self@, proposal_id) == Some(i as int),
                None => find_vote(self@, proposal_id) is None,
            },
    {
        let n = bounded_len(&self.items);
        let mut i: usize = 0;
        while i < n
            invariant
                n == self@.len(),
                i <= n,
                forall|j: int| 0 <= j < i ==> (#[trigger] self@[j]).proposal_id != proposal_id,
            decreases n - i,
        {
            let item = bounded_index(&self.items, i);
            if item.proposal_id == proposal_id {
                proof {
                    lemma_find_vote(self@, proposal_id);
                }
                return Some(i);
            }
            i += 1;
        }
        proof {
            lemma_find_vote(self@, proposal_id);
        }
        None
    }

    /// The position of the vote on the highest-numbered proposal.
    pub fn latest(&self) -> (r: Option<usize>)
        ensures
            match r {
                Some(i) => latest_vote(self@) == Some(i as int),
                None => latest_vote(self@) is None,
            },
    {
        let n = bounded_len(&self.items);
        if n == 0 {
            return None;
        }
        let mut best: usize = 0;
        let mut best_id: ProposalId = bounded_index(&self.items, 0).proposal_id;
        let mut i: usize = 1;
        assert(latest_vote(self@.take(1)) == Some(0int)) by {
            reveal_with_fuel(latest_vote, 2);
        }
        while i < n
            invariant
                n == self@.len(),
                1 <= i <= n,
                best < i,
                best_id == self@[best as int].proposal_id,
                latest_vote(self@.take(i as int)) == Some(best as int),
            decreases n - i,
        {
            let item = bounded_index(&self.items, i);
            assert(self@.take(i + 1).drop_last() == self@.take(i as int));
            if item.proposal_id >= best_id {
                best = i;
                best_id = item.proposal_id;
            }
            i += 1;
        }
        assert(self@.take(n as int) == self@);
        Some(best)
    }

    /// The position and the cost of the costliest vote: what the account must
    /// keep frozen. `Overflow` where the cost of some vote is no amount of
    /// tokens.
    pub fn binding(&self) -> (r: Result<Option<(usize, Balance)>, Error>)
        ensures
            !costs_fit(self@) ==> r == Err::<Option<(usize, Balance)>, Error>(Error::Overflow),
            costs_fit(self@) ==> match r {
                Ok(Some((i, c))) => binding_vote(self@) == Some(i as int) && c == max_cost(self@),
                Ok(None) => binding_vote(self@) is None && self@.len() == 0,
                Err(_) => false,
            },
    {
        let n = bounded_len(&self.items);
        let mut best: Option<(usize, Balance)> = None;
        let mut best_id: ProposalId = 0;
        let mut i: usize = 0;
        while i < n
            invariant
                n == self@.len(),
                i <= n,
                costs_fit(self@.take(i as int)),
                match best {
                    Some((b, c)) => b < i && binding_vote(self@.take(i as int)) == Some(b as int)
                        && c == cost(self@[b as int].votes) && c == max_cost(self@.take(i as int))
                        && best_id == self@[b as int].proposal_id,
                    None => i == 0,
                },
            decreases n - i,
        {
            let item = bounded_index(&self.items, i);
            let ghost shorter = self@.take(i as int);
            let ghost longer = self@.take(i + 1);
            assert(longer.drop_last() == shorter);
            assert(longer.last() == self@[i as int]);
            let c = match required_tokens(item.votes) {
                Some(c) => c,
                None => {
                    assert(!(cost(self@[i as int].votes) <= Balance::MAX));
                    return Err(Error::Overflow);
                },
            };
            assert forall|j: int| 0 <= j < i + 1 implies cost(
                #[trigger] self@.take(i + 1)[j].votes,
            ) <= Balance::MAX by {
                if j < i {
                    assert(self@.take(i as int)[j] == self@.take(i + 1)[j]);
                }
            }
            proof {
                match best {
                    Some((b, bc)) => {
                        assert(longer[b as int] == self@[b as int]);
                        assert(shorter[b as int] == self@[b as int]);
                    },
                    None => {
                        assert(binding_vote(shorter) is None);
                        assert(max_cost(shorter) == 0);
                        assert(cost(item.votes) >= 0) by (nonlinear_arith);
                    },
                }
            }
            best = match best {
                Some((b, bc)) => {
                    if c > bc || (c == bc && item.proposal_id >= best_id) {
                        best_id = item.proposal_id;
                        Some((i, c))
                    } else {
                        Some((b, bc))
                    }
                },
                None => {
                    best_id = item.proposal_id;
                    Some((i, c))
                },
            };
            i += 1;
        }
        assert(self@.take(n as int) == self@);
        Ok(best)
    }
}

} // verus!
