use quadratic_voting::{
    ensure_root, ensure_signed, next_proposal_id, required_tokens, Error, Event, FreezeReason,
    NativeBalance, Pallet, Proposal, RawOrigin, UserVoteInfo, VoteLedger, MAX_VOTES,
};

const DURATION: u64 = 10;

fn vote_on(proposal_id: u32, aye: bool, votes: u64) -> UserVoteInfo {
    UserVoteInfo { proposal_id, aye, votes }
}

fn open_proposal(ayes: u64, nays: u64) -> Proposal {
    Proposal { description: [0; 32], start_block: 1, ayes, nays, end: false }
}

/// An engine in block 1 in which the accounts 0, 1 and 2 are registered and
/// own 1000 tokens each, with `proposals` proposals made by account 0.
fn engine_with(proposals: u32) -> Pallet {
    let mut voting = Pallet::new(DURATION);
    voting.set_block_number(1);
    for who in 0..3 {
        assert_eq!(voting.mint_into(who, 1000), Ok(1000));
        assert_eq!(
            voting.register_voters(RawOrigin::Root, who),
            Ok(Event::VoterRegistered { voter: who })
        );
    }
    for id in 0..proposals {
        assert_eq!(
            voting.make_proposal(RawOrigin::Signed(0), vec![id as u8]),
            Ok(Event::ProposalCreated { proposal_id: id })
        );
    }
    voting
}

fn frozen(voting: &Pallet, who: u64) -> u64 {
    voting.balance_frozen(FreezeReason::AccountDeposit, who)
}

fn votes_of(voting: &Pallet, who: u64) -> Vec<UserVoteInfo> {
    match voting.voting_history(who) {
        Some(ledger) => ledger.to_vec(),
        None => Vec::new(),
    }
}

/// The greatest cost among the active votes of `who`, computed afresh.
fn greatest_cost(voting: &Pallet, who: u64) -> u64 {
    votes_of(voting, who).iter().map(|vote| vote.votes * vote.votes).max().unwrap_or(0)
}

/// The votes that the accounts 0 to 2 give `proposal_id` in direction `aye`.
fn votes_for(voting: &Pallet, proposal_id: u32, aye: bool) -> u64 {
    (0..3)
        .flat_map(|who| votes_of(voting, who))
        .filter(|vote| vote.proposal_id == proposal_id && vote.aye == aye)
        .map(|vote| vote.votes)
        .sum()
}

fn assert_reachable(voting: &Pallet, proposals: u32) {
    for who in 0..3 {
        assert_eq!(frozen(voting, who), greatest_cost(voting, who));
    }
    for id in 0..proposals {
        let proposal = voting.proposal(id).unwrap();
        if !proposal.end {
            assert_eq!(proposal.ayes, votes_for(voting, id, true));
            assert_eq!(proposal.nays, votes_for(voting, id, false));
        }
    }
}

// Costs, ids and origins

#[test]
fn cost_is_the_square() {
    assert_eq!(required_tokens(0), Some(0));
    assert_eq!(required_tokens(1), Some(1));
    assert_eq!(required_tokens(5), Some(25));
    assert_eq!(required_tokens(6), Some(36));
    assert_eq!(required_tokens(4_294_967_295), Some(18_446_744_065_119_617_025));
    assert_eq!(required_tokens(4_294_967_296), None);
    assert_eq!(required_tokens(u64::MAX), None);
}

#[test]
fn ids_run_out_at_the_greatest() {
    assert_eq!(next_proposal_id(0), Ok(1));
    assert_eq!(next_proposal_id(u32::MAX - 1), Ok(u32::MAX));
    assert_eq!(next_proposal_id(u32::MAX), Err(Error::IdOverflow));
}

#[test]
fn origins_are_told_apart() {
    assert_eq!(ensure_signed(RawOrigin::Signed(7)), Ok(7));
    assert_eq!(ensure_signed(RawOrigin::Root), Err(Error::BadOrigin));
    assert_eq!(ensure_signed(RawOrigin::Unsigned), Err(Error::BadOrigin));
    assert_eq!(ensure_signed(RawOrigin::Authorized), Err(Error::BadOrigin));
    assert_eq!(ensure_root(RawOrigin::Root), Ok(()));
    assert_eq!(ensure_root(RawOrigin::Signed(7)), Err(Error::BadOrigin));
    assert_eq!(ensure_root(RawOrigin::Unsigned), Err(Error::BadOrigin));
    assert_eq!(ensure_root(RawOrigin::Authorized), Err(Error::BadOrigin));
}

// The digest of a description

#[test]
fn description_is_stored_as_its_blake2_digest() {
    let empty: [u8; 32] = [
        14, 87, 81, 192, 38, 229, 67, 178, 232, 171, 46, 176, 96, 153, 218, 161, 209, 229, 223,
        71, 119, 143, 119, 135, 250, 171, 69, 205, 241, 47, 227, 168,
    ];
    let four: [u8; 32] = [
        225, 234, 229, 168, 173, 174, 101, 46, 201, 175, 150, 119, 52, 106, 157, 96, 236, 237,
        97, 227, 160, 166, 155, 250, 207, 81, 141, 179, 31, 134, 227, 107,
    ];
    let mut voting = engine_with(0);
    voting.set_block_number(4);
    assert_eq!(
        voting.make_proposal(RawOrigin::Signed(1), vec![0, 1, 2, 3]),
        Ok(Event::ProposalCreated { proposal_id: 0 })
    );
    assert_eq!(
        voting.proposal(0),
        Some(Proposal { description: four, start_block: 4, ayes: 0, nays: 0, end: false })
    );
    voting.set_block_number(6);
    assert_eq!(
        voting.make_proposal(RawOrigin::Signed(2), vec![]),
        Ok(Event::ProposalCreated { proposal_id: 1 })
    );
    assert_eq!(
        voting.proposal(1),
        Some(Proposal { description: empty, start_block: 6, ayes: 0, nays: 0, end: false })
    );
    assert_eq!(voting.proposal_index(), 2);
}

// One account's votes

#[test]
fn ledger_keeps_the_order_of_casting() {
    let mut ledger = VoteLedger::new();
    assert_eq!(ledger.len(), 0);
    assert_eq!(ledger.to_vec(), vec![]);
    assert_eq!(ledger.get(0), None);
    assert_eq!(ledger.try_push(vote_on(7, true, 2)), Ok(()));
    assert_eq!(ledger.try_push(vote_on(3, false, 4)), Ok(()));
    assert_eq!(ledger.try_push(vote_on(5, true, 1)), Ok(()));
    assert_eq!(ledger.len(), 3);
    assert_eq!(ledger.get(0), Some(vote_on(7, true, 2)));
    assert_eq!(ledger.get(1), Some(vote_on(3, false, 4)));
    assert_eq!(ledger.get(2), Some(vote_on(5, true, 1)));
    assert_eq!(ledger.get(3), None);
    assert_eq!(
        ledger.to_vec(),
        vec![vote_on(7, true, 2), vote_on(3, false, 4), vote_on(5, true, 1)]
    );

    let copy = ledger.duplicate();
    assert_eq!(ledger.remove(1), Some(vote_on(3, false, 4)));
    assert_eq!(ledger.to_vec(), vec![vote_on(7, true, 2), vote_on(5, true, 1)]);
    assert_eq!(ledger.remove(2), None);
    assert_eq!(ledger.to_vec(), vec![vote_on(7, true, 2), vote_on(5, true, 1)]);
    assert_eq!(ledger.remove(0), Some(vote_on(7, true, 2)));
    assert_eq!(ledger.to_vec(), vec![vote_on(5, true, 1)]);
    // The copy is a ledger of its own.
    assert_eq!(
        copy.to_vec(),
        vec![vote_on(7, true, 2), vote_on(3, false, 4), vote_on(5, true, 1)]
    );
}

#[test]
fn ledger_is_bounded() {
    let mut ledger = VoteLedger::new();
    for id in 0..MAX_VOTES {
        assert_eq!(ledger.try_push(vote_on(id, true, 1)), Ok(()));
    }
    assert_eq!(ledger.len(), 100);
    let before = ledger.to_vec();
    assert_eq!(ledger.try_push(vote_on(100, true, 1)), Err(Error::TooManyVotes));
    assert_eq!(ledger.to_vec(), before);
    assert_eq!(ledger.remove(99), Some(vote_on(99, true, 1)));
    assert_eq!(ledger.try_push(vote_on(100, true, 1)), Ok(()));
    assert_eq!(ledger.get(99), Some(vote_on(100, true, 1)));
}

#[test]
fn ledger_finds_votes() {
    let mut ledger = VoteLedger::new();
    assert_eq!(ledger.find(0), None);
    assert_eq!(ledger.latest(), None);
    assert_eq!(ledger.binding(), Ok(None));
    for vote in [vote_on(4, true, 3), vote_on(9, false, 2), vote_on(1, true, 7), vote_on(6, true, 7)]
    {
        assert_eq!(ledger.try_push(vote), Ok(()));
    }
    assert_eq!(ledger.find(4), Some(0));
    assert_eq!(ledger.find(9), Some(1));
    assert_eq!(ledger.find(1), Some(2));
    assert_eq!(ledger.find(6), Some(3));
    assert_eq!(ledger.find(5), None);
    // The highest-numbered proposal, not the vote cast last.
    assert_eq!(ledger.latest(), Some(1));
    // The costliest vote; of two that cost the same the one on the
    // higher-numbered proposal.
    assert_eq!(ledger.binding(), Ok(Some((3, 49))));
    assert_eq!(ledger.remove(3), Some(vote_on(6, true, 7)));
    assert_eq!(ledger.binding(), Ok(Some((2, 49))));
    assert_eq!(ledger.remove(2), Some(vote_on(1, true, 7)));
    assert_eq!(ledger.binding(), Ok(Some((0, 9))));
}

#[test]
fn ledger_takes_the_last_of_equals() {
    let mut ledger = VoteLedger::new();
    assert_eq!(ledger.try_push(vote_on(2, true, 3)), Ok(()));
    assert_eq!(ledger.try_push(vote_on(2, false, 3)), Ok(()));
    assert_eq!(ledger.try_push(vote_on(1, false, 3)), Ok(()));
    assert_eq!(ledger.find(2), Some(0));
    assert_eq!(ledger.latest(), Some(1));
    assert_eq!(ledger.binding(), Ok(Some((1, 9))));
}

#[test]
fn ledger_refuses_costs_that_overflow() {
    let mut ledger = VoteLedger::new();
    assert_eq!(ledger.try_push(vote_on(0, true, 4_294_967_295)), Ok(()));
    assert_eq!(ledger.binding(), Ok(Some((0, 18_446_744_065_119_617_025))));
    assert_eq!(ledger.try_push(vote_on(1, true, 4_294_967_296)), Ok(()));
    assert_eq!(ledger.binding(), Err(Error::Overflow));
}

// Tallies and deadlines

#[test]
fn tallies_are_checked() {
    let mut proposal = open_proposal(3, u64::MAX - 1);
    assert_eq!(Pallet::add_votes_to_proposal(&mut proposal, true, 4), Ok(()));
    assert_eq!(proposal, open_proposal(7, u64::MAX - 1));
    assert_eq!(Pallet::add_votes_to_proposal(&mut proposal, false, 1), Ok(()));
    assert_eq!(proposal, open_proposal(7, u64::MAX));
    assert_eq!(Pallet::add_votes_to_proposal(&mut proposal, false, 1), Err(Error::Overflow));
    assert_eq!(proposal, open_proposal(7, u64::MAX));

    assert_eq!(Pallet::remove_votes_from_proposal(&mut proposal, true, 7), Ok(()));
    assert_eq!(proposal, open_proposal(0, u64::MAX));
    assert_eq!(Pallet::remove_votes_from_proposal(&mut proposal, true, 1), Err(Error::Underflow));
    assert_eq!(proposal, open_proposal(0, u64::MAX));
    assert_eq!(Pallet::remove_votes_from_proposal(&mut proposal, false, u64::MAX), Ok(()));
    assert_eq!(proposal, open_proposal(0, 0));
}

#[test]
fn deadline_is_start_plus_duration() {
    let voting = Pallet::new(DURATION);
    assert_eq!(Pallet::convert_block_number_to_balance(17), 17);

    let mut proposal = open_proposal(1, 2);
    assert_eq!(voting.proposal_ended(5, 14, &mut proposal), Err(Error::VotingPeriodNotOver));
    assert_eq!(proposal, open_proposal(1, 2));
    assert_eq!(voting.proposal_ended(5, 15, &mut proposal), Ok(()));
    assert_eq!(proposal, Proposal { end: true, ..open_proposal(1, 2) });

    let mut proposal = open_proposal(1, 2);
    assert_eq!(voting.proposal_ended(5, 16, &mut proposal), Ok(()));
    assert!(proposal.end);

    let mut proposal = open_proposal(1, 2);
    assert_eq!(voting.proposal_ended(u64::MAX - 10, u64::MAX, &mut proposal), Ok(()));
    assert!(proposal.end);
    let mut proposal = open_proposal(1, 2);
    assert_eq!(
        voting.proposal_ended(u64::MAX - 9, u64::MAX, &mut proposal),
        Err(Error::Overflow)
    );
    assert_eq!(proposal, open_proposal(1, 2));
}

#[test]
fn closing_waits_for_the_deadline() {
    let mut voting = engine_with(0);
    voting.set_block_number(20);
    assert!(voting.make_proposal(RawOrigin::Signed(0), vec![1]).is_ok());
    assert_eq!(voting.proposal(0).unwrap().start_block, 20);
    voting.set_block_number(29);
    assert_eq!(voting.end_vote(RawOrigin::Signed(9), 0), Err(Error::VotingPeriodNotOver));
    assert_eq!(voting.proposal(0).unwrap().end, false);
    voting.set_block_number(30);
    // Whoever signs may close, registered or not.
    assert!(!voting.is_registered(9));
    assert_eq!(
        voting.end_vote(RawOrigin::Signed(9), 0),
        Ok(Event::ProposalResultTie { proposal_id: 0 })
    );
    assert_eq!(voting.proposal(0).unwrap().end, true);
    assert_eq!(voting.end_vote(RawOrigin::Signed(9), 0), Err(Error::VoteAlreadyEnded));
}

#[test]
fn closing_needs_a_signature() {
    let mut voting = engine_with(1);
    voting.set_block_number(11);
    assert_eq!(voting.end_vote(RawOrigin::Root, 0), Err(Error::BadOrigin));
    assert_eq!(voting.end_vote(RawOrigin::Unsigned, 0), Err(Error::BadOrigin));
    assert_eq!(voting.proposal(0).unwrap().end, false);
}

#[test]
fn closing_overflows_with_the_deadline() {
    let mut voting = engine_with(0);
    voting.set_block_number(u64::MAX - 9);
    assert!(voting.make_proposal(RawOrigin::Signed(0), vec![1]).is_ok());
    voting.set_block_number(u64::MAX);
    assert_eq!(voting.end_vote(RawOrigin::Signed(0), 0), Err(Error::Overflow));
    assert_eq!(voting.proposal(0).unwrap().end, false);
}

#[test]
fn closing_leaves_the_tallies() {
    let mut voting = engine_with(1);
    assert!(voting.vote(RawOrigin::Signed(0), 4, true, 0).is_ok());
    assert!(voting.vote(RawOrigin::Signed(1), 9, false, 0).is_ok());
    voting.set_block_number(11);
    let before = voting.proposal(0).unwrap();
    assert_eq!(
        voting.end_vote(RawOrigin::Signed(2), 0),
        Ok(Event::ProposalResultNay { proposal_id: 0 })
    );
    assert_eq!(voting.proposal(0), Some(Proposal { end: true, ..before }));
    assert_eq!(voting.proposal(0).unwrap().ayes, 4);
    assert_eq!(voting.proposal(0).unwrap().nays, 9);
    // The votes stay active and frozen until they are claimed.
    assert_eq!(frozen(&voting, 0), 16);
    assert_eq!(frozen(&voting, 1), 81);
}

// The token ledger

#[test]
fn freezes_are_set_and_lifted() {
    let mut ledger = NativeBalance::new();
    let reason = FreezeReason::AccountDeposit;
    assert_eq!(ledger.total_balance(3), 0);
    assert_eq!(ledger.balance_frozen(reason, 3), 0);
    assert_eq!(ledger.mint_into(3, 40), Ok(40));
    assert_eq!(ledger.mint_into(3, 2), Ok(42));
    assert_eq!(ledger.total_balance(3), 42);
    assert_eq!(ledger.mint_into(3, u64::MAX - 41), Err(Error::Overflow));
    assert_eq!(ledger.total_balance(3), 42);

    ledger.set_freeze(reason, 3, 25);
    assert_eq!(ledger.balance_frozen(reason, 3), 25);
    ledger.set_freeze(reason, 3, 9);
    assert_eq!(ledger.balance_frozen(reason, 3), 9);
    ledger.set_freeze(reason, 4, 7);
    assert_eq!(ledger.balance_frozen(reason, 3), 9);
    assert_eq!(ledger.balance_frozen(reason, 4), 7);
    ledger.thaw(reason, 3);
    assert_eq!(ledger.balance_frozen(reason, 3), 0);
    assert_eq!(ledger.balance_frozen(reason, 4), 7);
    ledger.set_freeze(reason, 4, 0);
    assert_eq!(ledger.balance_frozen(reason, 4), 0);
    assert_eq!(ledger.total_balance(3), 42);
}

#[test]
fn freeze_only_raises() {
    let mut voting = engine_with(0);
    assert_eq!(voting.freeze(0, vote_on(0, true, 5), 25), Ok(()));
    assert_eq!(frozen(&voting, 0), 25);
    assert_eq!(voting.freeze(0, vote_on(1, true, 3), 9), Ok(()));
    assert_eq!(frozen(&voting, 0), 25);
    assert_eq!(voting.freeze(0, vote_on(2, false, 6), 36), Ok(()));
    assert_eq!(frozen(&voting, 0), 36);
    assert_eq!(
        votes_of(&voting, 0),
        vec![vote_on(0, true, 5), vote_on(1, true, 3), vote_on(2, false, 6)]
    );
    assert_eq!(frozen(&voting, 1), 0);
}

#[test]
fn unfreeze_follows_the_votes_that_are_left() {
    let mut voting = engine_with(0);
    assert_eq!(voting.freeze(0, vote_on(0, true, 6), 36), Ok(()));
    let mut left = VoteLedger::new();
    assert_eq!(left.try_push(vote_on(3, true, 2)), Ok(()));
    assert_eq!(left.try_push(vote_on(1, false, 4)), Ok(()));
    assert_eq!(voting.unfreeze(0, &left), Ok(()));
    // The greatest cost, which is not that of the highest-numbered proposal.
    assert_eq!(frozen(&voting, 0), 16);
    assert_eq!(voting.unfreeze(0, &VoteLedger::new()), Ok(()));
    assert_eq!(frozen(&voting, 0), 0);

    assert_eq!(left.try_push(vote_on(2, false, u64::MAX)), Ok(()));
    assert_eq!(voting.unfreeze(1, &left), Err(Error::Overflow));
    assert_eq!(frozen(&voting, 1), 0);
}

#[test]
fn existing_votes_are_found() {
    let mut voting = engine_with(3);
    assert_eq!(voting.find_existing_vote(0, 1).map(|found| found.0), None);
    assert!(voting.vote(RawOrigin::Signed(0), 2, true, 2).is_ok());
    assert!(voting.vote(RawOrigin::Signed(0), 3, false, 1).is_ok());
    let (index, ledger) = voting.find_existing_vote(0, 1).unwrap();
    assert_eq!(index, 1);
    assert_eq!(ledger.to_vec(), vec![vote_on(2, true, 2), vote_on(1, false, 3)]);
    assert_eq!(voting.find_existing_vote(0, 2).map(|found| found.0), Some(0));
    assert_eq!(voting.find_existing_vote(0, 0).map(|found| found.0), None);
    assert_eq!(voting.find_existing_vote(1, 1).map(|found| found.0), None);
}

// Voting

#[test]
fn vote_needs_a_signature() {
    let mut voting = engine_with(1);
    assert_eq!(voting.vote(RawOrigin::Root, 1, true, 0), Err(Error::BadOrigin));
    assert_eq!(voting.vote(RawOrigin::Unsigned, 1, true, 0), Err(Error::BadOrigin));
    assert_eq!(voting.make_proposal(RawOrigin::Root, vec![]), Err(Error::BadOrigin));
    assert_eq!(voting.claim_frozen_tokens(RawOrigin::Root, 0), Err(Error::BadOrigin));
    assert_eq!(voting.proposal(0).unwrap().ayes, 0);
}

#[test]
fn unregistered_accounts_are_refused_whatever_they_ask() {
    let mut voting = engine_with(1);
    voting.set_block_number(11);
    assert!(voting.end_vote(RawOrigin::Signed(0), 0).is_ok());
    let stranger = RawOrigin::Signed(77);
    assert_eq!(voting.mint_into(77, 500), Ok(500));
    // On a proposal that exists and on one that does not.
    assert_eq!(voting.vote(stranger, 1, true, 0), Err(Error::NotRegistered));
    assert_eq!(voting.vote(stranger, 1, true, 5), Err(Error::NotRegistered));
    assert_eq!(voting.make_proposal(stranger, vec![1]), Err(Error::NotRegistered));
    assert_eq!(voting.claim_frozen_tokens(stranger, 0), Err(Error::NotRegistered));
    assert_eq!(voting.claim_frozen_tokens(stranger, 5), Err(Error::NotRegistered));
    assert_eq!(voting.proposal_index(), 1);
    assert_eq!(voting.voting_history(77).map(|ledger| ledger.to_vec()), None);
}

#[test]
fn vote_at_the_greatest_count_overflows() {
    let mut voting = engine_with(1);
    assert_eq!(voting.vote(RawOrigin::Signed(0), u64::MAX, true, 0), Err(Error::Overflow));
    assert_eq!(voting.vote(RawOrigin::Signed(0), 4_294_967_296, true, 0), Err(Error::Overflow));
    assert_eq!(votes_of(&voting, 0), vec![]);
    assert_eq!(frozen(&voting, 0), 0);
    assert_eq!(voting.proposal(0).unwrap().ayes, 0);
    // The greatest count whose cost is an amount is not paid for.
    assert_eq!(
        voting.vote(RawOrigin::Signed(0), 4_294_967_295, true, 0),
        Err(Error::InsufficientFunds)
    );
}

#[test]
fn vote_needs_the_funds() {
    let mut voting = engine_with(2);
    assert_eq!(voting.total_balance(0), 1000);
    assert_eq!(voting.vote(RawOrigin::Signed(0), 32, true, 0), Err(Error::InsufficientFunds));
    assert_eq!(votes_of(&voting, 0), vec![]);
    assert_eq!(
        voting.vote(RawOrigin::Signed(0), 31, true, 0),
        Ok(Event::VoteAddedTo { proposal_id: 0, votes: 31 })
    );
    assert_eq!(frozen(&voting, 0), 961);
    // Freezes do not add up: a second vote is paid out of the same tokens.
    assert_eq!(
        voting.vote(RawOrigin::Signed(0), 31, false, 1),
        Ok(Event::VoteAddedTo { proposal_id: 1, votes: 31 })
    );
    assert_eq!(frozen(&voting, 0), 961);
}

#[test]
fn zero_votes_on_nothing_change_nothing() {
    let mut voting = engine_with(1);
    assert_eq!(
        voting.vote(RawOrigin::Signed(0), 0, true, 0),
        Ok(Event::VoteRemovedOrCancelled { proposal_id: 0 })
    );
    assert_eq!(voting.voting_history(0).map(|ledger| ledger.to_vec()), None);
    assert_eq!(frozen(&voting, 0), 0);
    assert_eq!(voting.proposal(0).unwrap().ayes, 0);
}

#[test]
fn cancelling_takes_the_votes_off_the_tally() {
    let mut voting = engine_with(2);
    assert!(voting.vote(RawOrigin::Signed(0), 5, true, 0).is_ok());
    assert!(voting.vote(RawOrigin::Signed(1), 2, true, 0).is_ok());
    assert!(voting.vote(RawOrigin::Signed(0), 3, false, 1).is_ok());
    assert_eq!(voting.proposal(0).unwrap().ayes, 7);
    assert_eq!(frozen(&voting, 0), 25);

    assert_eq!(
        voting.vote(RawOrigin::Signed(0), 0, false, 0),
        Ok(Event::VoteRemovedOrCancelled { proposal_id: 0 })
    );
    assert_eq!(votes_of(&voting, 0), vec![vote_on(1, false, 3)]);
    assert_eq!(voting.proposal(0).unwrap().ayes, 2);
    assert_eq!(voting.proposal(0).unwrap().nays, 0);
    assert_eq!(frozen(&voting, 0), 9);
    assert_eq!(frozen(&voting, 1), 4);
    assert_reachable(&voting, 2);

    assert_eq!(
        voting.vote(RawOrigin::Signed(0), 0, true, 1),
        Ok(Event::VoteRemovedOrCancelled { proposal_id: 1 })
    );
    // The list stays, without votes, and nothing is frozen.
    assert_eq!(voting.voting_history(0).map(|ledger| ledger.to_vec()), Some(vec![]));
    assert_eq!(frozen(&voting, 0), 0);
    assert_eq!(voting.proposal(1).unwrap().nays, 0);
    assert_reachable(&voting, 2);
}

#[test]
fn revoting_moves_the_votes() {
    let mut voting = engine_with(2);
    assert!(voting.vote(RawOrigin::Signed(0), 5, true, 0).is_ok());
    assert!(voting.vote(RawOrigin::Signed(0), 2, true, 1).is_ok());
    assert_eq!(
        voting.vote(RawOrigin::Signed(0), 4, false, 0),
        Ok(Event::VoteAddedTo { proposal_id: 0, votes: 4 })
    );
    assert_eq!(voting.proposal(0).unwrap().ayes, 0);
    assert_eq!(voting.proposal(0).unwrap().nays, 4);
    // The new vote is the last one cast.
    assert_eq!(votes_of(&voting, 0), vec![vote_on(1, true, 2), vote_on(0, false, 4)]);
    assert_eq!(frozen(&voting, 0), 16);
    assert_reachable(&voting, 2);
}

#[test]
fn a_full_account_can_still_revote() {
    let mut voting = engine_with(101);
    for id in 0..100 {
        assert!(voting.vote(RawOrigin::Signed(0), 1, true, id).is_ok());
    }
    assert_eq!(voting.vote(RawOrigin::Signed(0), 1, true, 100), Err(Error::TooManyVotes));
    assert_eq!(
        voting.vote(RawOrigin::Signed(0), 2, false, 40),
        Ok(Event::VoteAddedTo { proposal_id: 40, votes: 2 })
    );
    assert_eq!(votes_of(&voting, 0).len(), 100);
    assert_eq!(votes_of(&voting, 0)[99], vote_on(40, false, 2));
    assert_eq!(frozen(&voting, 0), 4);
    // A cancelled vote makes room.
    assert!(voting.vote(RawOrigin::Signed(0), 0, false, 40).is_ok());
    assert_eq!(frozen(&voting, 0), 1);
    assert_eq!(
        voting.vote(RawOrigin::Signed(0), 1, true, 100),
        Ok(Event::VoteAddedTo { proposal_id: 100, votes: 1 })
    );
    assert_eq!(voting.vote(RawOrigin::Signed(0), 1, true, 40), Err(Error::TooManyVotes));
}

#[test]
fn large_votes_are_tallied() {
    let mut voting = engine_with(1);
    assert_eq!(voting.mint_into(0, u64::MAX - 1000), Ok(u64::MAX));
    assert_eq!(voting.mint_into(1, u64::MAX - 1000), Ok(u64::MAX));
    assert_eq!(voting.mint_into(2, u64::MAX - 1000), Ok(u64::MAX));
    let most = 4_294_967_295;
    assert!(voting.vote(RawOrigin::Signed(0), most, true, 0).is_ok());
    assert!(voting.vote(RawOrigin::Signed(1), most, true, 0).is_ok());
    assert!(voting.vote(RawOrigin::Signed(2), most, false, 0).is_ok());
    assert_eq!(voting.proposal(0).unwrap().ayes, 8_589_934_590);
    assert_eq!(voting.proposal(0).unwrap().nays, most);
    assert_eq!(frozen(&voting, 0), 18_446_744_065_119_617_025);
    assert_reachable(&voting, 1);
}

// The running example: freezes over three proposals

#[test]
fn freezes_follow_the_greatest_cost() {
    let mut voting = engine_with(3);
    assert!(voting.vote(RawOrigin::Signed(0), 5, true, 0).is_ok());
    assert_eq!(frozen(&voting, 0), 25);
    assert!(voting.vote(RawOrigin::Signed(0), 6, false, 1).is_ok());
    assert_eq!(frozen(&voting, 0), 36);
    assert!(voting.vote(RawOrigin::Signed(0), 3, true, 2).is_ok());
    assert_eq!(frozen(&voting, 0), 36);
    assert_reachable(&voting, 3);

    voting.set_block_number(11);
    // An open proposal cannot be claimed.
    assert_eq!(
        voting.claim_frozen_tokens(RawOrigin::Signed(0), 1),
        Err(Error::VotingPeriodNotOver)
    );
    assert!(voting.end_vote(RawOrigin::Signed(0), 0).is_ok());
    assert!(voting.end_vote(RawOrigin::Signed(0), 1).is_ok());
    // Nor a closed one while the vote on proposal 2 is active.
    let before = votes_of(&voting, 0);
    assert_eq!(voting.claim_frozen_tokens(RawOrigin::Signed(0), 0), Ok(Event::NoTokensUnlocked));
    assert_eq!(voting.claim_frozen_tokens(RawOrigin::Signed(0), 1), Ok(Event::NoTokensUnlocked));
    assert_eq!(votes_of(&voting, 0), before);
    assert_eq!(frozen(&voting, 0), 36);

    assert!(voting.end_vote(RawOrigin::Signed(0), 2).is_ok());
    assert_eq!(voting.claim_frozen_tokens(RawOrigin::Signed(0), 0), Ok(Event::NoTokensUnlocked));
    assert_eq!(voting.claim_frozen_tokens(RawOrigin::Signed(0), 2), Ok(Event::TokensUnlocked));
    assert_eq!(votes_of(&voting, 0), vec![vote_on(0, true, 5), vote_on(1, false, 6)]);
    assert_eq!(frozen(&voting, 0), 36);
    assert_eq!(voting.claim_frozen_tokens(RawOrigin::Signed(0), 0), Ok(Event::NoTokensUnlocked));
    assert_eq!(voting.claim_frozen_tokens(RawOrigin::Signed(0), 1), Ok(Event::TokensUnlocked));
    assert_eq!(frozen(&voting, 0), 25);
    assert_eq!(voting.claim_frozen_tokens(RawOrigin::Signed(0), 0), Ok(Event::TokensUnlocked));
    assert_eq!(frozen(&voting, 0), 0);
    assert_eq!(voting.claim_frozen_tokens(RawOrigin::Signed(0), 0), Err(Error::NoVotes));
    // Claims leave the tallies of the closed proposals alone.
    assert_eq!(voting.proposal(0).unwrap().ayes, 5);
    assert_eq!(voting.proposal(1).unwrap().nays, 6);
    assert_eq!(voting.proposal(2).unwrap().ayes, 3);
}

#[test]
fn claim_keeps_the_costlier_vote_frozen() {
    let mut voting = engine_with(2);
    assert!(voting.vote(RawOrigin::Signed(0), 6, true, 0).is_ok());
    assert!(voting.vote(RawOrigin::Signed(0), 3, true, 1).is_ok());
    voting.set_block_number(11);
    assert!(voting.end_vote(RawOrigin::Signed(0), 1).is_ok());
    assert_eq!(voting.claim_frozen_tokens(RawOrigin::Signed(0), 1), Ok(Event::TokensUnlocked));
    assert_eq!(votes_of(&voting, 0), vec![vote_on(0, true, 6)]);
    assert_eq!(frozen(&voting, 0), 36);
    assert_reachable(&voting, 2);
}

#[test]
fn claim_for_a_proposal_without_a_vote_unlocks_nothing() {
    let mut voting = engine_with(2);
    assert!(voting.vote(RawOrigin::Signed(0), 4, true, 0).is_ok());
    voting.set_block_number(11);
    assert!(voting.end_vote(RawOrigin::Signed(0), 1).is_ok());
    assert_eq!(voting.claim_frozen_tokens(RawOrigin::Signed(0), 1), Ok(Event::NoTokensUnlocked));
    assert_eq!(votes_of(&voting, 0), vec![vote_on(0, true, 4)]);
    assert_eq!(frozen(&voting, 0), 16);
}

#[test]
fn every_step_keeps_freezes_and_tallies_right() {
    let mut voting = engine_with(4);
    let steps: [(u64, u64, bool, u32); 14] = [
        (0, 5, true, 0),
        (1, 7, false, 0),
        (2, 1, true, 1),
        (0, 6, false, 1),
        (0, 3, true, 2),
        (1, 2, true, 2),
        (0, 2, false, 0),
        (2, 9, true, 3),
        (1, 0, true, 0),
        (0, 0, true, 1),
        (2, 4, false, 1),
        (1, 8, false, 3),
        (0, 10, true, 3),
        (2, 0, false, 3),
    ];
    for (who, votes, aye, proposal_id) in steps {
        assert!(voting.vote(RawOrigin::Signed(who), votes, aye, proposal_id).is_ok());
        assert_reachable(&voting, 4);
    }
    assert_eq!(voting.proposal(3).unwrap().ayes, 10);
    assert_eq!(voting.proposal(3).unwrap().nays, 8);
    voting.set_block_number(11);
    for proposal_id in [3, 1] {
        assert!(voting.end_vote(RawOrigin::Signed(1), proposal_id).is_ok());
        assert_reachable(&voting, 4);
    }
    let claims: [(u64, u32, Event); 6] = [
        (0, 3, Event::TokensUnlocked),
        (0, 1, Event::NoTokensUnlocked),
        (1, 3, Event::TokensUnlocked),
        (1, 1, Event::NoTokensUnlocked),
        (2, 3, Event::NoTokensUnlocked),
        (2, 1, Event::TokensUnlocked),
    ];
    for (who, proposal_id, unlocked) in claims {
        assert_eq!(voting.claim_frozen_tokens(RawOrigin::Signed(who), proposal_id), Ok(unlocked));
        assert_reachable(&voting, 4);
    }
    assert_eq!(voting.claim_frozen_tokens(RawOrigin::Signed(2), 1), Err(Error::NoVotes));
    assert_eq!(votes_of(&voting, 0), vec![vote_on(2, true, 3), vote_on(0, false, 2)]);
    assert_eq!(votes_of(&voting, 1), vec![vote_on(2, true, 2)]);
    assert_eq!(votes_of(&voting, 2), vec![]);
    assert_eq!(frozen(&voting, 0), 9);
    assert_eq!(frozen(&voting, 1), 4);
    assert_eq!(frozen(&voting, 2), 0);
}

#[test]
fn a_new_engine_is_empty() {
    let voting = Pallet::new(DURATION);
    assert_eq!(voting.get_current_block_number(), 0);
    assert_eq!(voting.proposal_index(), 0);
    assert_eq!(voting.proposal(0), None);
    assert!(!voting.is_registered(0));
    assert_eq!(voting.total_balance(0), 0);
    assert_eq!(frozen(&voting, 0), 0);
    assert!(voting.voting_history(0).is_none());
}

// Keeping the engine's state elsewhere

#[test]
fn stored_state_can_be_put_back() {
    let mut voting = Pallet::new(DURATION);
    voting.set_block_number(30);
    voting.set_proposal_index(8);
    assert_eq!(voting.proposal_index(), 8);
    assert_eq!(voting.mint_into(0, 500), Ok(500));
    assert!(voting.register_voters(RawOrigin::Root, 0).is_ok());
    voting.insert_proposal(3, Proposal { end: true, ..open_proposal(4, 0) });
    voting.insert_proposal(7, open_proposal(2, 9));
    let mut ledger = VoteLedger::new();
    assert_eq!(ledger.try_push(vote_on(7, true, 2)), Ok(()));
    assert_eq!(ledger.try_push(vote_on(3, true, 4)), Ok(()));
    voting.insert_voting_history(0, ledger);
    voting.set_freeze(FreezeReason::AccountDeposit, 0, 16);
    assert_eq!(frozen(&voting, 0), 16);
    assert_eq!(votes_of(&voting, 0), vec![vote_on(7, true, 2), vote_on(3, true, 4)]);

    assert_eq!(
        voting.vote(RawOrigin::Signed(0), 5, false, 7),
        Ok(Event::VoteAddedTo { proposal_id: 7, votes: 5 })
    );
    assert_eq!(voting.proposal(7), Some(open_proposal(0, 14)));
    assert_eq!(votes_of(&voting, 0), vec![vote_on(3, true, 4), vote_on(7, false, 5)]);
    assert_eq!(frozen(&voting, 0), 25);
    assert_eq!(
        voting.make_proposal(RawOrigin::Signed(0), vec![]),
        Ok(Event::ProposalCreated { proposal_id: 8 })
    );
    assert_eq!(voting.proposal(8).unwrap().start_block, 30);
    assert_eq!(voting.proposal_index(), 9);

    voting.set_proposal_index(u32::MAX);
    assert_eq!(voting.make_proposal(RawOrigin::Signed(0), vec![]), Err(Error::IdOverflow));
    assert_eq!(voting.proposal(u32::MAX), None);
    assert_eq!(voting.proposal_index(), u32::MAX);

    // A tally that holds fewer votes than the vote that is taken back.
    voting.insert_proposal(7, open_proposal(0, 4));
    assert_eq!(voting.vote(RawOrigin::Signed(0), 1, true, 7), Err(Error::Underflow));
    assert_eq!(voting.proposal(7), Some(open_proposal(0, 4)));
    assert_eq!(votes_of(&voting, 0), vec![vote_on(3, true, 4), vote_on(7, false, 5)]);
    // A tally that cannot take the new votes.
    voting.insert_proposal(7, open_proposal(u64::MAX - 5, 5));
    assert_eq!(voting.vote(RawOrigin::Signed(0), 6, true, 7), Err(Error::Overflow));
    assert_eq!(voting.proposal(7), Some(open_proposal(u64::MAX - 5, 5)));
    assert_eq!(votes_of(&voting, 0), vec![vote_on(3, true, 4), vote_on(7, false, 5)]);
    assert_eq!(frozen(&voting, 0), 25);
}
