//! A payment engine: it replays an ordered stream of transaction records
//! against per-client wallets and keeps every balance consistent.
//!
//! Amounts are fixed-point: one unit is a ten-thousandth of the currency.

pub mod client;
pub mod engine;
pub mod error;
pub mod guarantees;
pub mod transaction;
