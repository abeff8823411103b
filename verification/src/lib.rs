//! A ledger engine: replays transaction records against per-client accounts.
//!
//! Amounts are exact decimals ([`amount::Amount`]); the rules that turn one
//! record into a change of the store are in [`processor`], the store itself in
//! [`state`], and a whole run in [`batch`].

pub mod amount;
pub mod api;
pub mod batch;
pub mod domain;
pub mod laws;
pub mod processor;
pub mod rules;
pub mod state;
