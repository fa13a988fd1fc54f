//! Orchestration core for multi-leg, asynchronously resolving asset transfers.
//!
//! A request dispatches one or more independent transfer legs. Each leg later
//! resolves (success, error, or timeout) through a callback, in arbitrary
//! order. The engine aggregates those resolutions into notifications under a
//! per-request policy (notify after the first leg, or only after all legs),
//! keeps a durable ledger of still-pending units, and records a fund-return
//! obligation when a notification itself cannot be delivered.

pub mod contract;
pub mod error;
pub mod laws;
pub mod msg;
pub mod state;
