//! Quadratic voting over a pool of proposals.
//!
//! Registered accounts make proposals and vote on them. Casting `n` votes on
//! a proposal keeps `n * n` tokens of the voter frozen; over several proposals
//! an account's freeze is the greatest such cost, not their sum. A proposal is
//! closed by hand once its voting period is over, and voters then claim their
//! frozen tokens back.
//!
//! - [`pallet`]: the engine and its operations.
//! - [`model`]: what the engine holds and what each operation does to it.
//! - [`laws`]: what follows for every state, and for every state that the
//!   engine can reach; [`reachable`] and [`preserved`] hold the proofs.
//! - [`ledger`], [`history`]: one account's votes; [`balances`]: the tokens
//!   and freezes; [`hashing`]: the digest of a proposal's text; [`types`]:
//!   the plain data.

pub mod balances;
pub mod hashing;
pub mod history;
pub mod laws;
pub mod ledger;
pub mod model;
pub mod pallet;
pub mod preserved;
pub mod reachable;
pub mod types;

pub use balances::{Balances, NativeBalance};
pub use ledger::VoteLedger;
pub use model::State;
pub use pallet::Pallet;
pub use types::{
    cost, ensure_root, ensure_signed, next_proposal_id, required_tokens, AccountId, Balance,
    BlockNumber, DescriptionHash, Error, Event, FreezeReason, Proposal, ProposalId, RawOrigin,
    UserVoteInfo, MAX_VOTES,
};
