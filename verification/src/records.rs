//! The persisted records of the ledger core. Operational notes and
//! free-form operation details are bookkeeping of the surrounding
//! tooling, not of the core, and have no record here.
//!
//! Identities and record times are store-assigned `u128` counters; value
//! times (when a transaction is economically effective) and operation times
//! are caller-supplied `u64` instants; monetary amounts are `u64` minor
//! units (debit and credit kept separately, never signed).

use vstd::prelude::*;

use crate::enums::{AccountCategory, BalanceSide, PostingStatus, PostingType, StmtStatus};

verus! {

/// A chart of accounts; owns zero or more ledgers. Its name is globally
/// unique.
pub struct ChartOfAccount {
    pub id: u128,
    pub created: u64,
    pub user_details: String,
    pub short_desc: Option<String>,
    pub long_desc: Option<String>,
    pub name: String,
}

/// A ledger; belongs to exactly one chart of accounts and owns a tree of
/// accounts and an ordered, hash-chained sequence of postings. Its name is
/// unique within the system.
pub struct Ledger {
    pub id: u128,
    pub created: u64,
    pub user_details: String,
    pub short_desc: Option<String>,
    pub long_desc: Option<String>,
    pub name: String,
    pub coa_id: u128,
}

/// An account within a ledger. Its name is unique within its ledger; its
/// optional parent lies in the same ledger and was created before it, so
/// the account tree is cycle-free by construction.
pub struct LedgerAccount {
    pub id: u128,
    pub created: u64,
    pub user_details: String,
    pub short_desc: Option<String>,
    pub long_desc: Option<String>,
    pub name: String,
    pub ledger_id: u128,
    pub parent_id: Option<u128>,
    pub coa_id: u128,
    pub balance_side: BalanceSide,
    pub category: AccountCategory,
}

/// One balanced accounting event: a link of a ledger's hash chain, owning
/// one or more lines. Immutable once written, except for the discard
/// marker, and never deleted.
#[derive(Clone, Copy, Debug)]
pub struct Posting {
    pub id: u128,
    /// The id of the immediately preceding posting of the same ledger;
    /// `None` for the ledger's first posting.
    pub antecedent_id: Option<u128>,
    /// The stored hash of the antecedent; `None` for the first posting.
    pub antecedent_hash: Option<u64>,
    /// This posting's own content hash, chained over the antecedent hash.
    pub hash: u64,
    /// Store-assigned instant at which the posting was durably recorded;
    /// strictly increasing across the store.
    pub record_time: u128,
    /// Caller-supplied key grouping postings born of one business event;
    /// at most one non-discarded posting carries it at any time.
    pub opr_id: u64,
    /// When the originating business event occurred.
    pub opr_time: u64,
    /// Value time: when the posting is economically effective.
    pub pst_time: u64,
    pub pst_type: PostingType,
    pub pst_status: PostingStatus,
    pub ledger_id: u128,
    /// The id of the posting that superseded this one, if any.
    pub discarded_id: Option<u128>,
    /// The record time at which this posting was superseded, if ever.
    pub discarded_time: Option<u128>,
}

/// One debit or credit entry against one account within a posting.
///
/// The backing schema links lines to their posting only implicitly (same
/// operation, same record time); the store keeps the owning posting's id
/// explicit so the ownership is not left to reconstruction.
#[derive(Clone, Copy, Debug)]
pub struct PostingLine {
    pub id: u128,
    pub posting_id: u128,
    pub account_id: u128,
    pub debit_amount: u64,
    pub credit_amount: u64,
    /// The line this one corrects, if it was created as a correction.
    pub base_line: Option<u128>,
    pub record_time: u128,
    pub opr_id: u64,
    pub pst_time: u64,
    pub pst_type: PostingType,
    pub pst_status: PostingStatus,
    /// Content hash of the line.
    pub hash: u64,
    /// The record time at which the owning posting was superseded, if ever.
    pub discarded_time: Option<u128>,
}

/// A statement for one account: a point-in-time snapshot of the account's
/// cumulative totals as of a value time, bounding the cost of balance
/// reconstruction.
#[derive(Clone, Copy, Debug)]
pub struct AccountStmt {
    pub id: u128,
    pub account_id: u128,
    /// The cutoff: totals cover non-discarded lines with value time at or
    /// before this instant.
    pub pst_time: u64,
    pub stmt_status: StmtStatus,
    /// Strictly increasing per account.
    pub stmt_seq_nbr: u128,
    pub total_debit: u128,
    pub total_credit: u128,
    pub posting_id: Option<u128>,
    /// A posting contributing the greatest value time in this statement's
    /// fold window, if the window is not empty.
    pub latest_pst_id: Option<u128>,
    /// A posting contributing the greatest record time in this statement's
    /// fold window, if the window is not empty.
    pub youngest_pst_id: Option<u128>,
}

/// A statement for a whole ledger: a sequence-numbered cutoff marker.
#[derive(Clone, Copy, Debug)]
pub struct LedgerStmt {
    pub id: u128,
    pub ledger_id: u128,
    pub pst_time: u64,
    pub stmt_status: StmtStatus,
    /// Strictly increasing per ledger.
    pub stmt_seq_nbr: u128,
    pub posting_id: Option<u128>,
    pub latest_pst_id: Option<u128>,
}

/// An audit record linking a replacement posting to the posting and
/// account effect it superseded.
#[derive(Clone, Copy, Debug)]
pub struct PostingTrace {
    pub id: u128,
    /// The replacement posting.
    pub tgt_pst_id: u128,
    /// The superseded posting.
    pub src_pst_id: u128,
    pub src_pst_time: u64,
    pub src_opr_id: u64,
    pub account_id: u128,
    pub debit_amount: u64,
    pub credit_amount: u64,
    pub src_pst_hash: u64,
}

/// One line of a posting as handed to `append`: the account effect alone;
/// identities, times and hashes are assigned by the store.
#[derive(Clone, Copy, Debug)]
pub struct LineInput {
    pub account_id: u128,
    pub debit_amount: u64,
    pub credit_amount: u64,
    pub base_line: Option<u128>,
}

/// A new account statement as handed to `save`: the owner and the cutoff;
/// sequence number and totals are computed by the store.
#[derive(Clone, Copy, Debug)]
pub struct NewAccountStmt {
    pub account_id: u128,
    pub pst_time: u64,
}

} // verus!
