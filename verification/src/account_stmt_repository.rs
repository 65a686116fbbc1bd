//! Persisting and finding account statements, mirroring the storage
//! port's access patterns. The ordered finders lean on the store
//! invariant: per account, statement cutoffs and sequence numbers both
//! strictly increase in storage order.

use vstd::prelude::*;

use crate::enums::StmtStatus;
use crate::errors::LedgerError;
use crate::records::{AccountStmt, NewAccountStmt};
use crate::store::Store;
use crate::sums::{credit_sum, debit_sum, genesis_lo};

verus! {

/// Persists a new statement for the owner and cutoff named in
/// `new_stmt`: the statement is created through the checkpoint path, so
/// it gets the next sequence number and computed totals, and the same
/// validation applies — `NotFoundError` when the account does not exist,
/// `OutOfOrderCheckpointError` when the cutoff is not strictly after
/// every existing statement of the owner.
pub fn save(store: &mut Store, new_stmt: NewAccountStmt) -> (r: Result<AccountStmt, LedgerError>)
    requires
        old(store).wf(),
    ensures
        final(store).wf(),
        !old(store).has_account(new_stmt.account_id) ==> r == Err::<AccountStmt, LedgerError>(
            LedgerError::NotFoundError,
        ) && *final(store) == *old(store),
        old(store).has_account(new_stmt.account_id) && old(store).has_stmt_at_or_after(
            new_stmt.account_id,
            new_stmt.pst_time,
        ) ==> r == Err::<AccountStmt, LedgerError>(LedgerError::OutOfOrderCheckpointError)
            && *final(store) == *old(store),
        old(store).has_account(new_stmt.account_id) && !old(store).has_stmt_at_or_after(
            new_stmt.account_id,
            new_stmt.pst_time,
        ) ==> r is Ok && {
            let st = r->Ok_0;
            &&& final(store).account_stmts@ == old(store).account_stmts@.push(st)
            &&& st.account_id == new_stmt.account_id
            &&& st.pst_time == new_stmt.pst_time
            &&& st.stmt_status == StmtStatus::SIMULATED
            &&& st.total_debit == debit_sum(
                old(store).lines@,
                new_stmt.account_id,
                genesis_lo(),
                new_stmt.pst_time as int,
            )
            &&& st.total_credit == credit_sum(
                old(store).lines@,
                new_stmt.account_id,
                genesis_lo(),
                new_stmt.pst_time as int,
            )
            &&& final(store).lines@ == old(store).lines@
            &&& final(store).postings@ == old(store).postings@
            &&& final(store).charts@ == old(store).charts@
            &&& final(store).ledgers@ == old(store).ledgers@
            &&& final(store).accounts@ == old(store).accounts@
            &&& final(store).ledger_stmts@ == old(store).ledger_stmts@
            &&& final(store).traces@ == old(store).traces@
            &&& final(store).clock == old(store).clock
        },
{
    match store.create_checkpoint(new_stmt.account_id, new_stmt.pst_time) {
        Ok(id) => {
            let i = store.account_stmts.len() - 1;
            let st = store.account_stmts[i];
            proof {
                assert(st == final(store).account_stmts@.last());
                assert(st.id == id);
            }
            Ok(st)
        },
        Err(e) => Err(e),
    }
}

/// The owner's statement with the given status whose cutoff lies
/// strictly before `ref_time_val`, taking the greatest cutoff (and,
/// among equal cutoffs, the greatest sequence number — under the store
/// invariant both orders agree): the most recent qualifying checkpoint.
pub fn find_first_by_account_and_stmt_status_and_pst_time_less_than_order_by_pst_time_desc_stmt_seq_nbr_desc(
    store: &Store,
    account_id_val: u128,
    stmt_status_val: StmtStatus,
    ref_time_val: u64,
) -> (r: Option<AccountStmt>)
    requires
        store.wf(),
    ensures
        match r {
            Some(st) => {
                &&& st.account_id == account_id_val
                &&& st.stmt_status == stmt_status_val
                &&& st.pst_time < ref_time_val
                &&& exists|k: int|
                    0 <= k < store.account_stmts@.len() && (#[trigger] store.account_stmts@[k])
                        == st
                &&& forall|t: int|
                    0 <= t < store.account_stmts@.len() && (
                    #[trigger] store.account_stmts@[t]).account_id == account_id_val
                        && store.account_stmts@[t].stmt_status == stmt_status_val
                        && store.account_stmts@[t].pst_time < ref_time_val
                        ==> store.account_stmts@[t].pst_time <= st.pst_time
                        && store.account_stmts@[t].stmt_seq_nbr <= st.stmt_seq_nbr
            },
            None => forall|t: int|
                0 <= t < store.account_stmts@.len() ==> !((
                #[trigger] store.account_stmts@[t]).account_id == account_id_val
                    && store.account_stmts@[t].stmt_status == stmt_status_val
                    && store.account_stmts@[t].pst_time < ref_time_val),
        },
{
    let mut best: Option<usize> = None;
    let mut k: usize = 0;
    while k < store.account_stmts.len()
        invariant
            0 <= k <= store.account_stmts@.len(),
            match best {
                Some(i) => i < k && store.account_stmts@[i as int].account_id == account_id_val
                    && store.account_stmts@[i as int].stmt_status == stmt_status_val
                    && store.account_stmts@[i as int].pst_time < ref_time_val && forall|t: int|
                    i < t < k ==> !((#[trigger] store.account_stmts@[t]).account_id
                        == account_id_val && store.account_stmts@[t].stmt_status == stmt_status_val
                        && store.account_stmts@[t].pst_time < ref_time_val),
                None => forall|t: int|
                    0 <= t < k ==> !((#[trigger] store.account_stmts@[t]).account_id
                        == account_id_val && store.account_stmts@[t].stmt_status == stmt_status_val
                        && store.account_stmts@[t].pst_time < ref_time_val),
            },
        decreases store.account_stmts@.len() - k,
    {
        let st = store.account_stmts[k];
        if st.account_id == account_id_val && st.stmt_status == stmt_status_val && st.pst_time
            < ref_time_val {
            best = Some(k);
        }
        k = k + 1;
    }
    match best {
        Some(i) => {
            let st = store.account_stmts[i];
            proof {
                assert(store.account_stmts@[i as int] == st);
                assert forall|t: int|
                    0 <= t < store.account_stmts@.len() && (
                    #[trigger] store.account_stmts@[t]).account_id == account_id_val
                        && store.account_stmts@[t].stmt_status == stmt_status_val
                        && store.account_stmts@[t].pst_time < ref_time_val implies store
                    .account_stmts@[t].pst_time <= st.pst_time && store.account_stmts@[
                t].stmt_seq_nbr <= st.stmt_seq_nbr by {
                    if t < i as int {
                        reveal(Store::wf_account_stmts);
                    }
                }
            }
            Some(st)
        },
        None => None,
    }
}

/// The owner's statement with the given status whose cutoff lies at or
/// after `ref_time_val`, taking the least cutoff (and, among equal
/// cutoffs, the least sequence number — under the store invariant both
/// orders agree): the nearest future checkpoint, used for forward
/// reconciliation.
pub fn find_first_by_account_and_stmt_status_and_pst_time_gte(
    store: &Store,
    account_id_val: u128,
    stmt_status_val: StmtStatus,
    ref_time_val: u64,
) -> (r: Option<AccountStmt>)
    requires
        store.wf(),
    ensures
        match r {
            Some(st) => {
                &&& st.account_id == account_id_val
                &&& st.stmt_status == stmt_status_val
                &&& st.pst_time >= ref_time_val
                &&& exists|k: int|
                    0 <= k < store.account_stmts@.len() && (#[trigger] store.account_stmts@[k])
                        == st
                &&& forall|t: int|
                    0 <= t < store.account_stmts@.len() && (
                    #[trigger] store.account_stmts@[t]).account_id == account_id_val
                        && store.account_stmts@[t].stmt_status == stmt_status_val
                        && store.account_stmts@[t].pst_time >= ref_time_val ==> st.pst_time
                        <= store.account_stmts@[t].pst_time && st.stmt_seq_nbr
                        <= store.account_stmts@[t].stmt_seq_nbr
            },
            None => forall|t: int|
                0 <= t < store.account_stmts@.len() ==> !((
                #[trigger] store.account_stmts@[t]).account_id == account_id_val
                    && store.account_stmts@[t].stmt_status == stmt_status_val
                    && store.account_stmts@[t].pst_time >= ref_time_val),
        },
{
    let mut k: usize = 0;
    while k < store.account_stmts.len()
        invariant
            0 <= k <= store.account_stmts@.len(),
            forall|t: int|
                0 <= t < k ==> !((#[trigger] store.account_stmts@[t]).account_id == account_id_val
                    && store.account_stmts@[t].stmt_status == stmt_status_val
                    && store.account_stmts@[t].pst_time >= ref_time_val),
        decreases store.account_stmts@.len() - k,
    {
        let st = store.account_stmts[k];
        if st.account_id == account_id_val && st.stmt_status == stmt_status_val && st.pst_time
            >= ref_time_val {
            proof {
                assert(store.account_stmts@[k as int] == st);
                assert forall|t: int|
                    0 <= t < store.account_stmts@.len() && (
                    #[trigger] store.account_stmts@[t]).account_id == account_id_val
                        && store.account_stmts@[t].stmt_status == stmt_status_val
                        && store.account_stmts@[t].pst_time >= ref_time_val implies st.pst_time
                    <= store.account_stmts@[t].pst_time && st.stmt_seq_nbr <= store.account_stmts@[
                t].stmt_seq_nbr by {
                    if t > k as int {
                        reveal(Store::wf_account_stmts);
                    }
                }
            }
            return Some(st);
        }
        k = k + 1;
    }
    None
}

} // verus!
