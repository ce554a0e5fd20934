//! Verified payment-agreement engine and its companion ledgers.
//!
//! Every module keeps its state in plain values and takes the caller's
//! identity and the current time as arguments, so that each operation is a
//! function from the old state to the new state and a result.

pub mod address;
pub mod storage;
pub mod contract;
pub mod milestone;
pub mod escrow_claim;
pub mod payroll_claim;
pub mod lifecycle;
pub mod dispute;
pub mod claims;
pub mod persistence;
pub mod laws;
pub mod payment_scheduler;
pub mod department_manager;
pub mod token_vesting;
pub mod payment_splitter;
pub mod multisig;
pub mod compliance_reporting;
