//! Verified core of a two-leg order execution strategy for a binary-outcome
//! prediction market.
//!
//! For a correlated pair of tokens (the "up" and "down" outcome of one timed
//! event) the strategy submits two buy orders meant to execute together,
//! detects when only one leg actually filled, and runs a compensating
//! recovery sequence (refill the missing leg, else unwind the filled one).
//! A risk gate enforces daily-loss and per-token inventory ceilings before
//! any submission.
//!
//! All prices in this crate are fixed-point integers in thousandths of a
//! unit (a price of `420` stands for 0.420); sizes are plain integer share
//! counts, and profit/loss and inventory are signed integers in the same
//! units. The surrounding application performs the network calls (quote
//! lookups, signing, submission) and feeds their results back into the
//! verified decision functions defined here.

pub mod execution;
pub mod gamma;
pub mod hedge;
pub mod order;
pub mod risk;
