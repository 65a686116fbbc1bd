//! The library-wide theorems, stated over the store's model so a reader
//! sees them in one place rather than deriving them from the invariant.

use vstd::prelude::*;

use crate::chain::chain_ok;
use crate::errors::LedgerError;
use crate::store::{posting_active, Store};
use crate::sums::{credit_sum, debit_sum, genesis_lo, posting_credit_total, posting_debit_total};

verus! {

/// Every stored posting balances: the sum of the debit amounts of its
/// lines equals the sum of the credit amounts.
pub proof fn lemma_posting_balanced(s: Store, j: int)
    requires
        s.wf(),
        0 <= j < s.postings@.len(),
    ensures
        posting_debit_total(s.lines@, s.postings@[j].id) == posting_credit_total(
            s.lines@,
            s.postings@[j].id,
        ),
{
    reveal(Store::wf_balanced);
}

/// Recomputing every posting's hash from its stored content and its
/// antecedent's hash reproduces the stored hashes: the chain of a
/// well-formed store always round-trips.
pub proof fn lemma_chain_recomputable(s: Store)
    requires
        s.wf(),
    ensures
        chain_ok(s.postings@, s.lines@),
{
}

/// An account balance is a function of the stored lines alone, so
/// creating (or closing) a checkpoint, which never touches the lines,
/// cannot change any balance answer — only the cost of computing it.
pub proof fn lemma_balance_depends_only_on_lines(a: Store, b: Store, account_id: u128, as_of: u64)
    requires
        a.lines@ == b.lines@,
    ensures
        debit_sum(a.lines@, account_id, genesis_lo(), as_of as int) == debit_sum(
            b.lines@,
            account_id,
            genesis_lo(),
            as_of as int,
        ),
        credit_sum(a.lines@, account_id, genesis_lo(), as_of as int) == credit_sum(
            b.lines@,
            account_id,
            genesis_lo(),
            as_of as int,
        ),
{
}

/// Statement sequence numbers and cutoffs strictly increase per account
/// owner, in storage order.
pub proof fn lemma_stmt_order(s: Store, i: int, j: int)
    requires
        s.wf(),
        0 <= i < j < s.account_stmts@.len(),
        s.account_stmts@[i].account_id == s.account_stmts@[j].account_id,
    ensures
        s.account_stmts@[i].stmt_seq_nbr < s.account_stmts@[j].stmt_seq_nbr,
        s.account_stmts@[i].pst_time < s.account_stmts@[j].pst_time,
{
    reveal(Store::wf_account_stmts);
}

/// At most one non-discarded posting carries any operation id.
pub proof fn lemma_active_opr_unique(s: Store, i: int, j: int)
    requires
        s.wf(),
        0 <= i < j < s.postings@.len(),
        s.postings@[i].opr_id == s.postings@[j].opr_id,
        posting_active(s.postings@[i]),
    ensures
        !posting_active(s.postings@[j]),
{
    reveal(Store::wf_postings);
}

impl Store {
    /// Whether the posting with this id has no discard marker; fails with
    /// `NotFoundError` exactly when no such posting is stored.
    pub fn is_active(&self, posting_id: u128) -> (r: Result<bool, LedgerError>)
        ensures
            match r {
                Ok(b) => exists|k: int|
                    0 <= k < self.postings@.len() && (#[trigger] self.postings@[k]).id == posting_id
                        && b == posting_active(self.postings@[k]),
                Err(e) => e == LedgerError::NotFoundError && !self.has_posting(posting_id),
            },
    {
        match self.find_posting_index(posting_id) {
            Some(i) => {
                let b = self.postings[i].discarded_time.is_none();
                proof {
                    assert(0 <= i < self.postings@.len() && self.postings@[i as int].id
                        == posting_id && b == posting_active(self.postings@[i as int]));
                }
                Ok(b)
            },
            None => Err(LedgerError::NotFoundError),
        }
    }
}

} // verus!
