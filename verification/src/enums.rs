//! Closed enumerations of the ledger's domain: account categories, balance
//! sides, posting statuses, posting types and statement statuses.

use vstd::prelude::*;

verus! {

/// Each ledger account belongs to an account category.
#[derive(Clone, Copy, Debug, PartialEq, Eq, Structural)]
pub enum AccountCategory {
    /// Revenue; its balance naturally grows on the credit side.
    RE,
    /// Expense; its balance naturally grows on the debit side.
    EX,
    /// Asset; its balance naturally grows on the debit side.
    AS,
    /// Liability; its balance naturally grows on the credit side.
    LI,
    /// Equity; its balance naturally grows on the credit side.
    EQ,
    /// Non-operating income or expenses; tracked on both sides.
    NOOP,
    /// Non-operating revenue; its balance naturally grows on the credit side.
    NORE,
    /// Non-operating expenses; its balance naturally grows on the debit side.
    NOEX,
}

/// The side of the balance on which an account's balance increases.
#[derive(Clone, Copy, Debug, PartialEq, Eq, Structural)]
pub enum BalanceSide {
    /// The balance increases with debits.
    Dr,
    /// The balance increases with credits.
    Cr,
    /// Both totals are kept; the account is not netted to one side.
    DrCr,
}

/// The processing status of a posting.
#[derive(Clone, Copy, Debug, PartialEq, Eq, Structural)]
pub enum PostingStatus {
    DEFERRED,
    POSTED,
    PROPOSED,
    SIMULATED,
    TAX,
    UNPOSTED,
    CANCELLED,
    OTHER,
}

/// The kind of event a posting documents.
#[derive(Clone, Copy, Debug, PartialEq, Eq, Structural)]
pub enum PostingType {
    /// A business transaction affecting account balances.
    BusiTx,
    /// An adjustment transaction affecting account balances.
    AdjTx,
    /// Documents the balance of a ledger account.
    BalStmt,
    /// Documents a profit-and-loss statement.
    PnLStmt,
    /// Documents a balance-sheet statement.
    BsStmt,
    /// Documents the closing of a ledger.
    LdgClsng,
}

/// The lifecycle status of a statement: SIMULATED statements may still
/// change, a CLOSED statement is terminal and immutable.
#[derive(Clone, Copy, Debug, PartialEq, Eq, Structural)]
pub enum StmtStatus {
    SIMULATED,
    CLOSED,
}

/// The balance side on which an account of the given category naturally
/// grows.
pub open spec fn spec_natural_side(category: AccountCategory) -> BalanceSide {
    match category {
        AccountCategory::RE => BalanceSide::Cr,
        AccountCategory::EX => BalanceSide::Dr,
        AccountCategory::AS => BalanceSide::Dr,
        AccountCategory::LI => BalanceSide::Cr,
        AccountCategory::EQ => BalanceSide::Cr,
        AccountCategory::NOOP => BalanceSide::DrCr,
        AccountCategory::NORE => BalanceSide::Cr,
        AccountCategory::NOEX => BalanceSide::Dr,
    }
}

/// Returns the balance side on which accounts of `category` naturally grow.
pub fn natural_side(category: AccountCategory) -> (side: BalanceSide)
    ensures
        side == spec_natural_side(category),
{
    match category {
        AccountCategory::RE => BalanceSide::Cr,
        AccountCategory::EX => BalanceSide::Dr,
        AccountCategory::AS => BalanceSide::Dr,
        AccountCategory::LI => BalanceSide::Cr,
        AccountCategory::EQ => BalanceSide::Cr,
        AccountCategory::NOOP => BalanceSide::DrCr,
        AccountCategory::NORE => BalanceSide::Cr,
        AccountCategory::NOEX => BalanceSide::Dr,
    }
}

} // verus!
