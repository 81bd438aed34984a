//! A transaction processing engine: deposits, withdrawals and the dispute
//! life cycle (dispute, resolve, chargeback) applied to per-client accounts.
//!
//! Amounts are fixed-point decimals in ten-thousandths of a unit, so that
//! balances are exact and every balance rule is stated over integers.

pub mod account;
pub mod decimal;
pub mod export;
pub mod ingestion;
pub mod models;
pub mod theorems;
pub mod transaction;
