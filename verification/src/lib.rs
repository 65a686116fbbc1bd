//! A double-entry accounting ledger core: an append-only log of balanced
//! postings, corrected by superseding (never by deletion), hash-chained for
//! tamper evidence, and periodically folded into statements (checkpoints)
//! so that an account balance at an arbitrary value time can be
//! reconstructed from the nearest checkpoint plus incremental replay.

#![verifier::loop_isolation(false)]

pub mod account_stmt_repository;
pub mod balance;
pub mod chain;
pub mod checkpoint;
pub mod discard;
pub mod enums;
pub mod errors;
pub mod hash;
pub mod hierarchy;
pub mod laws;
pub mod ledger_account_repository;
pub mod ledger_repository;
pub mod ledger_stmt_repository;
pub mod posting_ledger;
pub mod posting_line_repository;
pub mod posting_repository;
pub mod posting_trace_repository;
pub mod records;
pub mod store;
pub mod sums;
