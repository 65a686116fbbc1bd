//! Statements (checkpoints): point-in-time cumulative balance snapshots
//! per account, created SIMULATED and closed into immutable CLOSED
//! statements whose totals are authoritative for balance reconstruction.

use vstd::prelude::*;

use crate::enums::StmtStatus;
use crate::errors::LedgerError;
use crate::records::{AccountStmt, LedgerStmt};
use crate::store::Store;
use crate::sums::{credit_sum, debit_sum, genesis_lo, line_in_scope};

verus! {

/// The lower window bound as an integer: one step below every value time
/// for a genesis fold, else the closed cutoff itself.
pub open spec fn spec_lo(lo: Option<u64>) -> int {
    match lo {
        Option::Some(c) => c as int,
        Option::None => genesis_lo(),
    }
}

impl Store {
    /// An account statement for this owner at or after this cutoff exists.
    pub open spec fn has_stmt_at_or_after(self, account_id: u128, as_of: u64) -> bool {
        exists|k: int|
            0 <= k < self.account_stmts@.len() && (#[trigger] self.account_stmts@[k]).account_id
                == account_id && self.account_stmts@[k].pst_time >= as_of
    }

    /// Sums the non-discarded lines of the account over the value-time
    /// window `(lo, hi]` (the whole history up to `hi` when `lo` is
    /// `None`), as debit and credit totals.
    pub fn fold_window(&self, account_id: u128, lo: Option<u64>, hi: u64) -> (r: (u128, u128))
        ensures
            r.0 == debit_sum(self.lines@, account_id, spec_lo(lo), hi as int),
            r.1 == credit_sum(self.lines@, account_id, spec_lo(lo), hi as int),
    {
        let mut d: u128 = 0;
        let mut c: u128 = 0;
        let mut k: usize = 0;
        while k < self.lines.len()
            invariant
                0 <= k <= self.lines@.len(),
                d == debit_sum(self.lines@.take(k as int), account_id, spec_lo(lo), hi as int),
                c == credit_sum(self.lines@.take(k as int), account_id, spec_lo(lo), hi as int),
                d <= k * (u64::MAX as u128),
                c <= k * (u64::MAX as u128),
            decreases self.lines@.len() - k,
        {
            let l = self.lines[k];
            let in_lo = match lo {
                Some(cut) => l.pst_time > cut,
                None => true,
            };
            proof {
                assert(k * (u64::MAX as u128) + u64::MAX <= (k + 1) * (u64::MAX as u128))
                    by (nonlinear_arith);
                assert((k + 1) * (u64::MAX as u128) <= self.lines@.len() * (u64::MAX as u128))
                    by (nonlinear_arith)
                    requires k + 1 <= self.lines@.len(),
                ;
                assert(self.lines@.len() * (u64::MAX as u128) < u128::MAX) by (nonlinear_arith)
                    requires self.lines@.len() <= usize::MAX,
                ;
            }
            if l.account_id == account_id && l.discarded_time.is_none() && in_lo && l.pst_time <= hi
            {
                proof {
                    assert(line_in_scope(l, account_id, spec_lo(lo), hi as int));
                }
                d = d + l.debit_amount as u128;
                c = c + l.credit_amount as u128;
            } else {
                proof {
                    assert(!line_in_scope(l, account_id, spec_lo(lo), hi as int));
                }
            }
            k = k + 1;
            proof {
                assert(self.lines@.take(k as int).drop_last() =~= self.lines@.take(k - 1));
                assert(self.lines@.take(k as int).last() == self.lines@[k - 1]);
            }
        }
        proof {
            assert(self.lines@.take(self.lines@.len() as int) =~= self.lines@);
        }
        (d, c)
    }

    /// Creates a statement for the account at the given cutoff, in
    /// SIMULATED status, with the next sequence number and with totals
    /// covering the account's whole non-discarded history up to the
    /// cutoff. Fails with `NotFoundError` exactly when the account does
    /// not exist, else with `OutOfOrderCheckpointError` exactly when the
    /// cutoff is not strictly after every existing statement of the
    /// owner. On error the store is unchanged.
    pub fn create_checkpoint(&mut self, account_id: u128, as_of: u64) -> (r: Result<
        u128,
        LedgerError,
    >)
        requires
            old(self).wf(),
        ensures
            final(self).wf(),
            !old(self).has_account(account_id) ==> r == Err::<u128, LedgerError>(
                LedgerError::NotFoundError,
            ) && *final(self) == *old(self),
            old(self).has_account(account_id) && old(self).has_stmt_at_or_after(account_id, as_of)
                ==> r == Err::<u128, LedgerError>(LedgerError::OutOfOrderCheckpointError)
                    && *final(self) == *old(self),
            old(self).has_account(account_id) && !old(self).has_stmt_at_or_after(account_id, as_of)
                ==> {
                let st = final(self).account_stmts@.last();
                &&& r == Ok::<u128, LedgerError>(st.id)
                &&& final(self).account_stmts@ == old(self).account_stmts@.push(st)
                &&& st.id == old(self).next_id
                &&& st.account_id == account_id
                &&& st.pst_time == as_of
                &&& st.stmt_status == StmtStatus::SIMULATED
                &&& st.total_debit == debit_sum(
                    old(self).lines@,
                    account_id,
                    genesis_lo(),
                    as_of as int,
                )
                &&& st.total_credit == credit_sum(
                    old(self).lines@,
                    account_id,
                    genesis_lo(),
                    as_of as int,
                )
                &&& final(self).charts@ == old(self).charts@
                &&& final(self).ledgers@ == old(self).ledgers@
                &&& final(self).accounts@ == old(self).accounts@
                &&& final(self).postings@ == old(self).postings@
                &&& final(self).lines@ == old(self).lines@
                &&& final(self).ledger_stmts@ == old(self).ledger_stmts@
                &&& final(self).traces@ == old(self).traces@
                &&& final(self).next_id == old(self).next_id + 1
                &&& final(self).clock == old(self).clock
            },
    {
        if self.find_account_index(account_id).is_none() {
            return Err(LedgerError::NotFoundError);
        }
        let mut latest: Option<usize> = None;
        let mut k: usize = 0;
        while k < self.account_stmts.len()
            invariant
                0 <= k <= self.account_stmts@.len(),
                forall|t: int|
                    0 <= t < k ==> ((#[trigger] self.account_stmts@[t]).account_id == account_id
                        ==> self.account_stmts@[t].pst_time < as_of),
                match latest {
                    Some(i) => i < k && self.account_stmts@[i as int].account_id == account_id
                        && forall|t: int|
                        i < t < k ==> (#[trigger] self.account_stmts@[t]).account_id != account_id,
                    None => forall|t: int|
                        0 <= t < k ==> (#[trigger] self.account_stmts@[t]).account_id != account_id,
                },
            decreases self.account_stmts@.len() - k,
        {
            if self.account_stmts[k].account_id == account_id {
                if self.account_stmts[k].pst_time >= as_of {
                    proof {
                        assert(self.account_stmts@[k as int].account_id == account_id
                            && self.account_stmts@[k as int].pst_time >= as_of);
                    }
                    return Err(LedgerError::OutOfOrderCheckpointError);
                }
                latest = Some(k);
            }
            k = k + 1;
        }
        let seq: u128 = match latest {
            Some(i) => {
                proof {
                    reveal(Store::wf_account_stmts);
                    assert(self.account_stmts@[i as int].stmt_seq_nbr <= i + 1);
                }
                self.account_stmts[i].stmt_seq_nbr + 1
            },
            None => 1,
        };
        let (d, c) = self.fold_window(account_id, None, as_of);
        self.counter_headroom();
        let id = self.next_id;
        let st = AccountStmt {
            id,
            account_id,
            pst_time: as_of,
            stmt_status: StmtStatus::SIMULATED,
            stmt_seq_nbr: seq,
            total_debit: d,
            total_credit: c,
            posting_id: None,
            latest_pst_id: None,
            youngest_pst_id: None,
        };
        self.account_stmts.push(st);
        self.next_id = id + 1;
        proof {
            let pre = *old(self);
            let post = *self;
            let last = post.account_stmts@.len() - 1;
            assert(post.wf_account_stmts()) by {
                reveal(Store::wf_account_stmts);
                assert forall|i: int, j: int| 0 <= i < j < post.account_stmts@.len() implies (
                #[trigger] post.account_stmts@[i]).id < (#[trigger] post.account_stmts@[j]).id by {
                    if j == last {
                        assert(post.account_stmts@[i] == pre.account_stmts@[i]);
                        assert(pre.account_stmts@[i].id < pre.next_id);
                    }
                }
                assert forall|i: int, j: int|
                    0 <= i < j < post.account_stmts@.len() && (
                    #[trigger] post.account_stmts@[i]).account_id == (
                    #[trigger] post.account_stmts@[j]).account_id implies post.account_stmts@[
                i].stmt_seq_nbr < post.account_stmts@[j].stmt_seq_nbr && post.account_stmts@[
                i].pst_time < post.account_stmts@[j].pst_time by {
                    if j == last {
                        assert(post.account_stmts@[i] == pre.account_stmts@[i]);
                        match latest {
                            Some(li) => {
                                if i != li as int {
                                    assert(pre.account_stmts@[li as int].account_id == account_id);
                                    if i < li as int {
                                        assert(pre.account_stmts@[i].stmt_seq_nbr
                                            < pre.account_stmts@[li as int].stmt_seq_nbr);
                                    } else {
                                        assert(pre.account_stmts@[i].account_id != account_id);
                                        assert(false);
                                    }
                                }
                            },
                            None => {
                                assert(pre.account_stmts@[i].account_id != account_id);
                                assert(false);
                            },
                        }
                    }
                }
            }
            Store::lemma_grow_charts(pre, post);
            Store::lemma_grow_ledgers(pre, post);
            Store::lemma_grow_accounts(pre, post);
            Store::lemma_grow_postings(pre, post);
            Store::lemma_grow_lines(pre, post);
            Store::lemma_grow_balanced(pre, post);
            Store::lemma_grow_ledger_stmts(pre, post);
            Store::lemma_grow_traces(pre, post);
        }
        Ok(id)
    }

    /// Closes a SIMULATED statement: recomputes its totals over the
    /// account's current non-discarded history up to its cutoff (lines
    /// may have landed or been superseded after the cutoff was chosen and
    /// before closing) and makes it CLOSED, terminal and immutable. Fails
    /// with `NotFoundError` exactly when no SIMULATED statement with this
    /// id exists; the store is then unchanged.
    pub fn close(&mut self, stmt_id: u128) -> (r: Result<(), LedgerError>)
        requires
            old(self).wf(),
        ensures
            final(self).wf(),
            (forall|k: int|
                0 <= k < old(self).account_stmts@.len() ==> !((
                #[trigger] old(self).account_stmts@[k]).id == stmt_id && old(
                    self,
                ).account_stmts@[k].stmt_status == StmtStatus::SIMULATED)) ==> r == Err::<
                (),
                LedgerError,
            >(LedgerError::NotFoundError) && *final(self) == *old(self),
            (exists|k: int|
                0 <= k < old(self).account_stmts@.len() && (
                #[trigger] old(self).account_stmts@[k]).id == stmt_id && old(
                    self,
                ).account_stmts@[k].stmt_status == StmtStatus::SIMULATED) ==> {
                let k = choose|k: int|
                    0 <= k < old(self).account_stmts@.len() && (
                    #[trigger] old(self).account_stmts@[k]).id == stmt_id && old(
                        self,
                    ).account_stmts@[k].stmt_status == StmtStatus::SIMULATED;
                let st = final(self).account_stmts@[k];
                &&& r == Ok::<(), LedgerError>(())
                &&& final(self).account_stmts@.len() == old(self).account_stmts@.len()
                &&& forall|t: int|
                    0 <= t < old(self).account_stmts@.len() && t != k
                        ==> final(self).account_stmts@[t] == old(self).account_stmts@[t]
                &&& st.id == stmt_id
                &&& st.stmt_status == StmtStatus::CLOSED
                &&& st.account_id == old(self).account_stmts@[k].account_id
                &&& st.pst_time == old(self).account_stmts@[k].pst_time
                &&& st.stmt_seq_nbr == old(self).account_stmts@[k].stmt_seq_nbr
                &&& st.total_debit == debit_sum(
                    old(self).lines@,
                    st.account_id,
                    genesis_lo(),
                    st.pst_time as int,
                )
                &&& st.total_credit == credit_sum(
                    old(self).lines@,
                    st.account_id,
                    genesis_lo(),
                    st.pst_time as int,
                )
                &&& final(self).charts@ == old(self).charts@
                &&& final(self).ledgers@ == old(self).ledgers@
                &&& final(self).accounts@ == old(self).accounts@
                &&& final(self).postings@ == old(self).postings@
                &&& final(self).lines@ == old(self).lines@
                &&& final(self).ledger_stmts@ == old(self).ledger_stmts@
                &&& final(self).traces@ == old(self).traces@
                &&& final(self).next_id == old(self).next_id
                &&& final(self).clock == old(self).clock
            },
    {
        let mut k: usize = 0;
        while k < self.account_stmts.len()
            invariant
                0 <= k <= self.account_stmts@.len(),
                *self == *old(self),
                forall|t: int|
                    0 <= t < k ==> !((#[trigger] self.account_stmts@[t]).id == stmt_id
                        && self.account_stmts@[t].stmt_status == StmtStatus::SIMULATED),
            decreases self.account_stmts@.len() - k,
        {
            let st = self.account_stmts[k];
            if st.id == stmt_id && matches!(st.stmt_status, StmtStatus::SIMULATED) {
                let (d, c) = self.fold_window(st.account_id, None, st.pst_time);
                let closed = AccountStmt {
                    stmt_status: StmtStatus::CLOSED,
                    total_debit: d,
                    total_credit: c,
                    ..st
                };
                self.account_stmts[k] = closed;
                proof {
                    let pre = *old(self);
                    let post = *self;
                    assert(0 <= k < pre.account_stmts@.len() && pre.account_stmts@[k as int].id
                        == stmt_id && pre.account_stmts@[k as int].stmt_status
                        == StmtStatus::SIMULATED);
                    let kk = choose|kk: int|
                        0 <= kk < pre.account_stmts@.len() && (
                        #[trigger] pre.account_stmts@[kk]).id == stmt_id
                            && pre.account_stmts@[kk].stmt_status == StmtStatus::SIMULATED;
                    assert(post.wf_account_stmts()) by {
                        reveal(Store::wf_account_stmts);
                    }
                    assert(kk == k as int) by {
                        reveal(Store::wf_account_stmts);
                        if kk < k as int {
                            assert(pre.account_stmts@[kk].id < pre.account_stmts@[k as int].id);
                        }
                        if kk > k as int {
                            assert(pre.account_stmts@[k as int].id < pre.account_stmts@[kk].id);
                        }
                    }
                    Store::lemma_grow_charts(pre, post);
                    Store::lemma_grow_ledgers(pre, post);
                    Store::lemma_grow_accounts(pre, post);
                    Store::lemma_grow_postings(pre, post);
                    Store::lemma_grow_lines(pre, post);
                    Store::lemma_grow_balanced(pre, post);
                    Store::lemma_grow_ledger_stmts(pre, post);
                    Store::lemma_grow_traces(pre, post);
                }
                return Ok(());
            }
            k = k + 1;
        }
        Err(LedgerError::NotFoundError)
    }
}

impl Store {
    /// A ledger statement for this owner at or after this cutoff exists.
    pub open spec fn has_ledger_stmt_at_or_after(self, ledger_id: u128, as_of: u64) -> bool {
        exists|k: int|
            0 <= k < self.ledger_stmts@.len() && (#[trigger] self.ledger_stmts@[k]).ledger_id
                == ledger_id && self.ledger_stmts@[k].pst_time >= as_of
    }

    /// Creates a statement for the whole ledger at the given cutoff, in
    /// SIMULATED status, with the next sequence number: a
    /// sequence-numbered cutoff marker. Fails with `NotFoundError`
    /// exactly when the ledger does not exist, else with
    /// `OutOfOrderCheckpointError` exactly when the cutoff is not
    /// strictly after every existing statement of the owner. On error the
    /// store is unchanged.
    pub fn create_ledger_checkpoint(&mut self, ledger_id: u128, as_of: u64) -> (r: Result<
        u128,
        LedgerError,
    >)
        requires
            old(self).wf(),
        ensures
            final(self).wf(),
            !old(self).has_ledger(ledger_id) ==> r == Err::<u128, LedgerError>(
                LedgerError::NotFoundError,
            ) && *final(self) == *old(self),
            old(self).has_ledger(ledger_id) && old(self).has_ledger_stmt_at_or_after(
                ledger_id,
                as_of,
            ) ==> r == Err::<u128, LedgerError>(LedgerError::OutOfOrderCheckpointError)
                && *final(self) == *old(self),
            old(self).has_ledger(ledger_id) && !old(self).has_ledger_stmt_at_or_after(
                ledger_id,
                as_of,
            ) ==> {
                let st = final(self).ledger_stmts@.last();
                &&& r == Ok::<u128, LedgerError>(st.id)
                &&& final(self).ledger_stmts@ == old(self).ledger_stmts@.push(st)
                &&& st.id == old(self).next_id
                &&& st.ledger_id == ledger_id
                &&& st.pst_time == as_of
                &&& st.stmt_status == StmtStatus::SIMULATED
                &&& final(self).charts@ == old(self).charts@
                &&& final(self).ledgers@ == old(self).ledgers@
                &&& final(self).accounts@ == old(self).accounts@
                &&& final(self).postings@ == old(self).postings@
                &&& final(self).lines@ == old(self).lines@
                &&& final(self).account_stmts@ == old(self).account_stmts@
                &&& final(self).traces@ == old(self).traces@
                &&& final(self).next_id == old(self).next_id + 1
                &&& final(self).clock == old(self).clock
            },
    {
        if self.find_ledger_index(ledger_id).is_none() {
            return Err(LedgerError::NotFoundError);
        }
        let mut latest: Option<usize> = None;
        let mut k: usize = 0;
        while k < self.ledger_stmts.len()
            invariant
                0 <= k <= self.ledger_stmts@.len(),
                forall|t: int|
                    0 <= t < k ==> ((#[trigger] self.ledger_stmts@[t]).ledger_id == ledger_id
                        ==> self.ledger_stmts@[t].pst_time < as_of),
                match latest {
                    Some(i) => i < k && self.ledger_stmts@[i as int].ledger_id == ledger_id
                        && forall|t: int|
                        i < t < k ==> (#[trigger] self.ledger_stmts@[t]).ledger_id != ledger_id,
                    None => forall|t: int|
                        0 <= t < k ==> (#[trigger] self.ledger_stmts@[t]).ledger_id != ledger_id,
                },
            decreases self.ledger_stmts@.len() - k,
        {
            if self.ledger_stmts[k].ledger_id == ledger_id {
                if self.ledger_stmts[k].pst_time >= as_of {
                    proof {
                        assert(self.ledger_stmts@[k as int].ledger_id == ledger_id
                            && self.ledger_stmts@[k as int].pst_time >= as_of);
                    }
                    return Err(LedgerError::OutOfOrderCheckpointError);
                }
                latest = Some(k);
            }
            k = k + 1;
        }
        let seq: u128 = match latest {
            Some(i) => {
                proof {
                    reveal(Store::wf_ledger_stmts);
                    assert(self.ledger_stmts@[i as int].stmt_seq_nbr <= i + 1);
                }
                self.ledger_stmts[i].stmt_seq_nbr + 1
            },
            None => 1,
        };
        self.counter_headroom();
        let id = self.next_id;
        let st = LedgerStmt {
            id,
            ledger_id,
            pst_time: as_of,
            stmt_status: StmtStatus::SIMULATED,
            stmt_seq_nbr: seq,
            posting_id: None,
            latest_pst_id: None,
        };
        self.ledger_stmts.push(st);
        self.next_id = id + 1;
        proof {
            let pre = *old(self);
            let post = *self;
            let last = post.ledger_stmts@.len() - 1;
            assert(post.wf_ledger_stmts()) by {
                reveal(Store::wf_ledger_stmts);
                assert forall|i: int, j: int| 0 <= i < j < post.ledger_stmts@.len() implies (
                #[trigger] post.ledger_stmts@[i]).id < (#[trigger] post.ledger_stmts@[j]).id by {
                    if j == last {
                        assert(post.ledger_stmts@[i] == pre.ledger_stmts@[i]);
                        assert(pre.ledger_stmts@[i].id < pre.next_id);
                    }
                }
                assert forall|i: int, j: int|
                    0 <= i < j < post.ledger_stmts@.len() && (
                    #[trigger] post.ledger_stmts@[i]).ledger_id == (
                    #[trigger] post.ledger_stmts@[j]).ledger_id implies post.ledger_stmts@[
                i].stmt_seq_nbr < post.ledger_stmts@[j].stmt_seq_nbr && post.ledger_stmts@[
                i].pst_time < post.ledger_stmts@[j].pst_time by {
                    if j == last {
                        assert(post.ledger_stmts@[i] == pre.ledger_stmts@[i]);
                        match latest {
                            Some(li) => {
                                if i != li as int {
                                    assert(pre.ledger_stmts@[li as int].ledger_id == ledger_id);
                                    if i < li as int {
                                        assert(pre.ledger_stmts@[i].stmt_seq_nbr
                                            < pre.ledger_stmts@[li as int].stmt_seq_nbr);
                                    } else {
                                        assert(pre.ledger_stmts@[i].ledger_id != ledger_id);
                                        assert(false);
                                    }
                                }
                            },
                            None => {
                                assert(pre.ledger_stmts@[i].ledger_id != ledger_id);
                                assert(false);
                            },
                        }
                    }
                }
            }
            Store::lemma_grow_charts(pre, post);
            Store::lemma_grow_ledgers(pre, post);
            Store::lemma_grow_accounts(pre, post);
            Store::lemma_grow_postings(pre, post);
            Store::lemma_grow_lines(pre, post);
            Store::lemma_grow_balanced(pre, post);
            Store::lemma_grow_account_stmts(pre, post);
            Store::lemma_grow_traces(pre, post);
        }
        Ok(id)
    }

    /// Closes a SIMULATED ledger statement: makes it CLOSED, terminal and
    /// immutable. Fails with `NotFoundError` exactly when no SIMULATED
    /// ledger statement with this id exists; the store is then unchanged.
    pub fn close_ledger_stmt(&mut self, stmt_id: u128) -> (r: Result<(), LedgerError>)
        requires
            old(self).wf(),
        ensures
            final(self).wf(),
            (forall|k: int|
                0 <= k < old(self).ledger_stmts@.len() ==> !((
                #[trigger] old(self).ledger_stmts@[k]).id == stmt_id && old(
                    self,
                ).ledger_stmts@[k].stmt_status == StmtStatus::SIMULATED)) ==> r == Err::<
                (),
                LedgerError,
            >(LedgerError::NotFoundError) && *final(self) == *old(self),
            (exists|k: int|
                0 <= k < old(self).ledger_stmts@.len() && (
                #[trigger] old(self).ledger_stmts@[k]).id == stmt_id && old(
                    self,
                ).ledger_stmts@[k].stmt_status == StmtStatus::SIMULATED) ==> {
                let k = choose|k: int|
                    0 <= k < old(self).ledger_stmts@.len() && (
                    #[trigger] old(self).ledger_stmts@[k]).id == stmt_id && old(
                        self,
                    ).ledger_stmts@[k].stmt_status == StmtStatus::SIMULATED;
                &&& r == Ok::<(), LedgerError>(())
                &&& final(self).ledger_stmts@.len() == old(self).ledger_stmts@.len()
                &&& forall|t: int|
                    0 <= t < old(self).ledger_stmts@.len() && t != k
                        ==> final(self).ledger_stmts@[t] == old(self).ledger_stmts@[t]
                &&& final(self).ledger_stmts@[k] == (LedgerStmt {
                    stmt_status: StmtStatus::CLOSED,
                    ..old(self).ledger_stmts@[k]
                })
                &&& final(self).charts@ == old(self).charts@
                &&& final(self).ledgers@ == old(self).ledgers@
                &&& final(self).accounts@ == old(self).accounts@
                &&& final(self).postings@ == old(self).postings@
                &&& final(self).lines@ == old(self).lines@
                &&& final(self).account_stmts@ == old(self).account_stmts@
                &&& final(self).traces@ == old(self).traces@
                &&& final(self).next_id == old(self).next_id
                &&& final(self).clock == old(self).clock
            },
    {
        let mut k: usize = 0;
        while k < self.ledger_stmts.len()
            invariant
                0 <= k <= self.ledger_stmts@.len(),
                *self == *old(self),
                forall|t: int|
                    0 <= t < k ==> !((#[trigger] self.ledger_stmts@[t]).id == stmt_id
                        && self.ledger_stmts@[t].stmt_status == StmtStatus::SIMULATED),
            decreases self.ledger_stmts@.len() - k,
        {
            let st = self.ledger_stmts[k];
            if st.id == stmt_id && matches!(st.stmt_status, StmtStatus::SIMULATED) {
                let closed = LedgerStmt { stmt_status: StmtStatus::CLOSED, ..st };
                self.ledger_stmts[k] = closed;
                proof {
                    let pre = *old(self);
                    let post = *self;
                    assert(0 <= k < pre.ledger_stmts@.len() && pre.ledger_stmts@[k as int].id
                        == stmt_id && pre.ledger_stmts@[k as int].stmt_status
                        == StmtStatus::SIMULATED);
                    let kk = choose|kk: int|
                        0 <= kk < pre.ledger_stmts@.len() && (
                        #[trigger] pre.ledger_stmts@[kk]).id == stmt_id
                            && pre.ledger_stmts@[kk].stmt_status == StmtStatus::SIMULATED;
                    assert(post.wf_ledger_stmts()) by {
                        reveal(Store::wf_ledger_stmts);
                    }
                    assert(kk == k as int) by {
                        reveal(Store::wf_ledger_stmts);
                        if kk < k as int {
                            assert(pre.ledger_stmts@[kk].id < pre.ledger_stmts@[k as int].id);
                        }
                        if kk > k as int {
                            assert(pre.ledger_stmts@[k as int].id < pre.ledger_stmts@[kk].id);
                        }
                    }
                    Store::lemma_grow_charts(pre, post);
                    Store::lemma_grow_ledgers(pre, post);
                    Store::lemma_grow_accounts(pre, post);
                    Store::lemma_grow_postings(pre, post);
                    Store::lemma_grow_lines(pre, post);
                    Store::lemma_grow_balanced(pre, post);
                    Store::lemma_grow_account_stmts(pre, post);
                    Store::lemma_grow_traces(pre, post);
                }
                return Ok(());
            }
            k = k + 1;
        }
        Err(LedgerError::NotFoundError)
    }
}

} // verus!
