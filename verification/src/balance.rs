//! Balance reconstruction: the balance of an account as of a value time,
//! computed from the nearest closed statement plus replay of the
//! subsequent non-discarded lines — with a contract pinning the result to
//! the account's whole history, so the answer provably does not depend on
//! which statements happen to exist.

use vstd::prelude::*;

use crate::enums::{BalanceSide, StmtStatus};
use crate::errors::LedgerError;
use crate::store::Store;
use crate::sums::{credit_sum, debit_sum, genesis_lo, lemma_sum_bounds, lemma_sum_split};

verus! {

/// An account's totals as of a value time, together with the side on
/// which the account's balance grows. For a `Dr` account the balance is
/// total debit minus total credit; for a `Cr` account, total credit
/// minus total debit; for a `DrCr` account both totals stand as they
/// are, without netting.
#[derive(Clone, Copy, Debug)]
pub struct AccountBalance {
    pub side: BalanceSide,
    pub total_debit: u128,
    pub total_credit: u128,
}

impl AccountBalance {
    /// The netted balance as a sign and a magnitude: for a `Dr` account,
    /// total debit minus total credit; for a `Cr` account, the reverse;
    /// `None` for a `DrCr` account, whose totals are never netted.
    pub fn net(&self) -> (r: Option<(bool, u128)>)
        ensures
            self.side == BalanceSide::DrCr <==> r is None,
            self.side == BalanceSide::Dr && r is Some ==> {
                let (neg, mag) = r->Some_0;
                &&& (neg <==> self.total_credit > self.total_debit)
                &&& mag == if neg {
                    self.total_credit - self.total_debit
                } else {
                    self.total_debit - self.total_credit
                }
            },
            self.side == BalanceSide::Cr && r is Some ==> {
                let (neg, mag) = r->Some_0;
                &&& (neg <==> self.total_debit > self.total_credit)
                &&& mag == if neg {
                    self.total_debit - self.total_credit
                } else {
                    self.total_credit - self.total_debit
                }
            },
    {
        match self.side {
            BalanceSide::Dr => {
                if self.total_debit >= self.total_credit {
                    Some((false, self.total_debit - self.total_credit))
                } else {
                    Some((true, self.total_credit - self.total_debit))
                }
            },
            BalanceSide::Cr => {
                if self.total_credit >= self.total_debit {
                    Some((false, self.total_credit - self.total_debit))
                } else {
                    Some((true, self.total_debit - self.total_credit))
                }
            },
            BalanceSide::DrCr => None,
        }
    }
}

impl Store {
    /// The balance of the account as of the given value time: the latest
    /// closed statement strictly before that time, if any, plus replay of
    /// the account's subsequent non-discarded lines. The result equals
    /// the fold of the account's whole non-discarded history up to the
    /// requested time, whether or not any statement exists, so creating a
    /// checkpoint can never change an answer, only its cost. Fails with
    /// `NotFoundError` exactly when the account does not exist.
    pub fn balance_as_of(&self, account_id: u128, as_of: u64) -> (r: Result<
        AccountBalance,
        LedgerError,
    >)
        requires
            self.wf(),
        ensures
            !self.has_account(account_id) ==> r == Err::<AccountBalance, LedgerError>(
                LedgerError::NotFoundError,
            ),
            self.has_account(account_id) ==> r is Ok && {
                let b = r->Ok_0;
                &&& b.total_debit == debit_sum(self.lines@, account_id, genesis_lo(), as_of as int)
                &&& b.total_credit == credit_sum(
                    self.lines@,
                    account_id,
                    genesis_lo(),
                    as_of as int,
                )
                &&& exists|k: int|
                    0 <= k < self.accounts@.len() && (#[trigger] self.accounts@[k]).id == account_id
                        && b.side == self.accounts@[k].balance_side
            },
    {
        let ai = match self.find_account_index(account_id) {
            Some(ai) => ai,
            None => {
                return Err(LedgerError::NotFoundError);
            },
        };
        let side = self.accounts[ai].balance_side;
        let mut cp: Option<usize> = None;
        let mut k: usize = 0;
        while k < self.account_stmts.len()
            invariant
                0 <= k <= self.account_stmts@.len(),
                match cp {
                    Some(i) => i < k && self.account_stmts@[i as int].account_id == account_id
                        && self.account_stmts@[i as int].stmt_status == StmtStatus::CLOSED
                        && self.account_stmts@[i as int].pst_time < as_of,
                    None => true,
                },
            decreases self.account_stmts@.len() - k,
        {
            let st = self.account_stmts[k];
            if st.account_id == account_id && matches!(st.stmt_status, StmtStatus::CLOSED)
                && st.pst_time < as_of {
                cp = Some(k);
            }
            k = k + 1;
        }
        match cp {
            Some(i) => {
                let st = self.account_stmts[i];
                let n_lines: usize = self.lines.len();
                let (wd, wc) = self.fold_window(account_id, Some(st.pst_time), as_of);
                proof {
                    reveal(Store::wf_account_stmts);
                    lemma_sum_split(
                        self.lines@,
                        account_id,
                        genesis_lo(),
                        st.pst_time as int,
                        as_of as int,
                    );
                    lemma_sum_bounds(self.lines@, account_id, genesis_lo(), as_of as int);
                    assert((n_lines as int) * u64::MAX < u128::MAX) by (nonlinear_arith)
                        requires n_lines <= usize::MAX,
                    ;
                }
                Ok(AccountBalance {
                    side,
                    total_debit: st.total_debit + wd,
                    total_credit: st.total_credit + wc,
                })
            },
            None => {
                let (d, c) = self.fold_window(account_id, None, as_of);
                Ok(AccountBalance { side, total_debit: d, total_credit: c })
            },
        }
    }
}

} // verus!
