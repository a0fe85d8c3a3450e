//! Escrow and settlement engine for a two-player wagering service.
//!
//! Two parties stake funds on the outcome of a game hosted by an external
//! game service and settled through an external Lightning-style payment
//! gateway. This crate holds the verified core: the challenge lifecycle
//! state machine, the atomic balance ledger, and the reconciliation logic
//! that keeps the local ledger consistent with the two external sources of
//! truth (payment state and game result). Network and database plumbing
//! live outside the crate and hand plain values in and out.

pub mod challenge_store;
pub mod encoding;
pub mod escrow;
pub mod invoice;
pub mod ledger;
pub mod listing;
pub mod models;
pub mod parse;
pub mod reconcile;
pub mod withdraw;
