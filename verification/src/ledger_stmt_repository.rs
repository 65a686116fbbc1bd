//! Finding ledger statements, mirroring the storage port's access
//! pattern: the most recent statement of an owner with a given status at
//! or before a reference time.

use vstd::prelude::*;

use crate::enums::StmtStatus;
use crate::records::LedgerStmt;
use crate::store::Store;

verus! {

/// The owner's statement with the given status whose cutoff lies at or
/// before `ref_time_val`, taking the greatest cutoff (and, among equal
/// cutoffs, the greatest sequence number — under the store invariant
/// both orders agree).
pub fn find_first_by_ledger_and_stmt_status_and_pst_time_lte_order_by_pst_time_desc_stmt_seq_nbr_desc(
    store: &Store,
    ledger_id_val: u128,
    stmt_status_val: StmtStatus,
    ref_time_val: u64,
) -> (r: Option<LedgerStmt>)
    requires
        store.wf(),
    ensures
        match r {
            Some(st) => {
                &&& st.ledger_id == ledger_id_val
                &&& st.stmt_status == stmt_status_val
                &&& st.pst_time <= ref_time_val
                &&& exists|k: int|
                    0 <= k < store.ledger_stmts@.len() && (#[trigger] store.ledger_stmts@[k]) == st
                &&& forall|t: int|
                    0 <= t < store.ledger_stmts@.len() && (
                    #[trigger] store.ledger_stmts@[t]).ledger_id == ledger_id_val
                        && store.ledger_stmts@[t].stmt_status == stmt_status_val
                        && store.ledger_stmts@[t].pst_time <= ref_time_val
                        ==> store.ledger_stmts@[t].pst_time <= st.pst_time
                        && store.ledger_stmts@[t].stmt_seq_nbr <= st.stmt_seq_nbr
            },
            None => forall|t: int|
                0 <= t < store.ledger_stmts@.len() ==> !((
                #[trigger] store.ledger_stmts@[t]).ledger_id == ledger_id_val
                    && store.ledger_stmts@[t].stmt_status == stmt_status_val
                    && store.ledger_stmts@[t].pst_time <= ref_time_val),
        },
{
    let mut best: Option<usize> = None;
    let mut k: usize = 0;
    while k < store.ledger_stmts.len()
        invariant
            0 <= k <= store.ledger_stmts@.len(),
            match best {
                Some(i) => i < k && store.ledger_stmts@[i as int].ledger_id == ledger_id_val
                    && store.ledger_stmts@[i as int].stmt_status == stmt_status_val
                    && store.ledger_stmts@[i as int].pst_time <= ref_time_val && forall|t: int|
                    i < t < k ==> !((#[trigger] store.ledger_stmts@[t]).ledger_id == ledger_id_val
                        && store.ledger_stmts@[t].stmt_status == stmt_status_val
                        && store.ledger_stmts@[t].pst_time <= ref_time_val),
                None => forall|t: int|
                    0 <= t < k ==> !((#[trigger] store.ledger_stmts@[t]).ledger_id == ledger_id_val
                        && store.ledger_stmts@[t].stmt_status == stmt_status_val
                        && store.ledger_stmts@[t].pst_time <= ref_time_val),
            },
        decreases store.ledger_stmts@.len() - k,
    {
        let st = store.ledger_stmts[k];
        if st.ledger_id == ledger_id_val && st.stmt_status == stmt_status_val && st.pst_time
            <= ref_time_val {
            best = Some(k);
        }
        k = k + 1;
    }
    match best {
        Some(i) => {
            let st = store.ledger_stmts[i];
            proof {
                assert(store.ledger_stmts@[i as int] == st);
                assert forall|t: int|
                    0 <= t < store.ledger_stmts@.len() && (
                    #[trigger] store.ledger_stmts@[t]).ledger_id == ledger_id_val
                        && store.ledger_stmts@[t].stmt_status == stmt_status_val
                        && store.ledger_stmts@[t].pst_time <= ref_time_val implies store
                    .ledger_stmts@[t].pst_time <= st.pst_time && store.ledger_stmts@[
                t].stmt_seq_nbr <= st.stmt_seq_nbr by {
                    if t < i as int {
                        reveal(Store::wf_ledger_stmts);
                    }
                }
            }
            Some(st)
        },
        None => None,
    }
}

} // verus!
