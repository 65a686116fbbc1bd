//! The error taxonomy of the ledger core.

use vstd::prelude::*;

verus! {

/// Everything that an operation of the ledger core can report.
///
/// Validation and uniqueness errors are returned to the caller unmodified;
/// a chain conflict is a retryable optimistic-concurrency signal; a chain
/// integrity failure is fatal and never auto-corrected.
#[derive(Clone, Copy, Debug, PartialEq, Eq, Structural)]
pub enum LedgerError {
    /// The lines of a posting do not balance (or a line is malformed:
    /// both sides non-zero, or an empty or zero-only line set outside a
    /// statement posting).
    UnbalancedPostingError,
    /// A non-discarded posting with the same operation id already exists.
    DuplicateOperationError,
    /// A chart, ledger or account name that must be unique is taken.
    DuplicateNameError,
    /// A referenced chart, ledger, account, posting, line or statement
    /// does not exist.
    NotFoundError,
    /// The ledger's chain head moved between the caller's read and this
    /// write; the caller may re-read the head and retry.
    ChainConflictError,
    /// The stored hash chain does not match its recomputation; fatal.
    ChainIntegrityError {
        /// The first posting at which the recomputation disagrees.
        posting_id: u128,
    },
    /// A statement's value time is not strictly after the owner's latest
    /// statement, or a write would fall at or before a closed statement's
    /// cutoff and silently change its totals.
    OutOfOrderCheckpointError,
    /// The backing store cannot be reached; transient, never raised by the
    /// in-memory store itself.
    StoreUnavailableError,
}

} // verus!
