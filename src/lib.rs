//! Round lifecycle and settlement engine for a binary up/down price market.
//!
//! Bettors stake lamports on whether a reference price rises or falls over a
//! round. Prices are locked from a Pyth price update, the round is settled
//! exactly once, and winners redeem their payouts from escrow.
pub mod admin;
pub mod bet;
pub mod constants;
pub mod error;
pub mod oracle;
pub mod settlement;
pub mod state;
