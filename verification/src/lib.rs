//! A governance module for token-holder voting.
//!
//! Token holders stake a deposit to submit a proposal, other holders cast
//! votes weighted by their balance at a snapshot height, and a proposal that
//! reaches the required quorum and threshold after its voting window becomes
//! executable, dispatching an ordered batch of calls.
//!
//! The crate holds the proposal lifecycle state machine and the vote-tally
//! engine: submission validation, snapshot-based vote casting, quorum and
//! threshold resolution, and ordered execution dispatch. Balances and total
//! supply are answered by an outside voting-power oracle; the handlers take
//! those answers as plain arguments, so every decision made here is verified
//! for every answer the oracle could give.

pub mod allowances;
pub mod contract;
pub mod decimal;
pub mod dispatch;
pub mod error;
pub mod laws;
pub mod msg;
pub mod repository;
pub mod state;

pub use decimal::Decimal;
