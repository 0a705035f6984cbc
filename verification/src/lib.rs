//! Fault-tolerant executor core for a rotating pool of workers that carry out
//! time-triggered tasks registered on a shared ledger.
//!
//! The crate verifies the decision logic: retry bookkeeping with exponential
//! backoff, pool-membership-aware eligibility, deduplication against in-flight
//! submissions, and per-tick reconciliation of submitted operations. Network
//! transport and ledger reads stay outside, handing the engine plain values.

pub mod assoc;
pub mod backoff;
pub mod executor;
pub mod history_store;
pub mod ordinal;
pub mod specifier;
pub mod thread_store;
pub mod time_unit;
pub mod types;
