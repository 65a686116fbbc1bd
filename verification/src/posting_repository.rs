//! Point lookups over the posting log, mirroring the storage port's
//! access patterns. These are audit-grade reads: they see discarded
//! postings unless the finder says otherwise.

use vstd::prelude::*;

use crate::records::Posting;
use crate::store::{posting_active, Store};

verus! {

/// The postings carrying the given operation id, in record-time order.
pub open spec fn spec_postings_with_opr(postings: Seq<Posting>, opr_id: u64) -> Seq<Posting>
    decreases postings.len(),
{
    if postings.len() == 0 {
        Seq::empty()
    } else {
        spec_postings_with_opr(postings.drop_last(), opr_id) + if postings.last().opr_id == opr_id {
            seq![postings.last()]
        } else {
            Seq::empty()
        }
    }
}

/// The posting with this id, discarded or not.
pub fn find_by_id(store: &Store, pst_id: u128) -> (r: Option<Posting>)
    ensures
        match r {
            Some(p) => p.id == pst_id && exists|k: int|
                0 <= k < store.postings@.len() && (#[trigger] store.postings@[k]) == p,
            None => !store.has_posting(pst_id),
        },
{
    match store.find_posting_index(pst_id) {
        Some(i) => {
            let p = store.postings[i];
            proof {
                assert(store.postings@[i as int] == p);
            }
            Some(p)
        },
        None => None,
    }
}

/// Every posting carrying this operation id, in record-time order,
/// discarded ones included.
pub fn find_by_opr_id(store: &Store, opr_id: u64) -> (r: Vec<Posting>)
    ensures
        r@ == spec_postings_with_opr(store.postings@, opr_id),
{
    let mut r: Vec<Posting> = Vec::new();
    let mut k: usize = 0;
    while k < store.postings.len()
        invariant
            0 <= k <= store.postings@.len(),
            r@ == spec_postings_with_opr(store.postings@.take(k as int), opr_id),
        decreases store.postings@.len() - k,
    {
        if store.postings[k].opr_id == opr_id {
            r.push(store.postings[k]);
        }
        k = k + 1;
        proof {
            assert(store.postings@.take(k as int).drop_last() =~= store.postings@.take(k - 1));
            assert(store.postings@.take(k as int).last() == store.postings@[k - 1]);
        }
    }
    proof {
        assert(store.postings@.take(store.postings@.len() as int) =~= store.postings@);
    }
    r
}

/// The non-discarded posting carrying this operation id, of which the
/// store holds at most one.
pub fn find_by_opr_id_and_discarding_id_is_null(store: &Store, opr_id: u64) -> (r: Option<Posting>)
    ensures
        match r {
            Some(p) => p.opr_id == opr_id && posting_active(p) && exists|k: int|
                0 <= k < store.postings@.len() && (#[trigger] store.postings@[k]) == p,
            None => !store.has_active_opr(opr_id),
        },
{
    let mut k: usize = 0;
    while k < store.postings.len()
        invariant
            0 <= k <= store.postings@.len(),
            forall|t: int|
                0 <= t < k ==> !((#[trigger] store.postings@[t]).opr_id == opr_id
                    && posting_active(store.postings@[t])),
        decreases store.postings@.len() - k,
    {
        let p = store.postings[k];
        if p.opr_id == opr_id && p.discarded_time.is_none() {
            proof {
                assert(store.postings@[k as int] == p);
            }
            return Some(p);
        }
        k = k + 1;
    }
    None
}

/// The ledger's chain head: its latest posting in record-time order,
/// which is storage order.
pub fn find_first_by_ledger_order_by_record_time_desc(store: &Store, ledger_id: u128) -> (r: Option<
    Posting,
>)
    ensures
        match r {
            Some(p) => p.ledger_id == ledger_id && exists|k: int|
                0 <= k < store.postings@.len() && (#[trigger] store.postings@[k]) == p && forall|
                    t: int,
                |
                    k < t < store.postings@.len() ==> (#[trigger] store.postings@[t]).ledger_id
                        != ledger_id,
            None => forall|t: int|
                0 <= t < store.postings@.len() ==> (#[trigger] store.postings@[t]).ledger_id
                    != ledger_id,
        },
{
    match store.head_index(ledger_id) {
        Some(i) => {
            let p = store.postings[i];
            proof {
                assert(store.postings@[i as int] == p);
            }
            Some(p)
        },
        None => None,
    }
}

} // verus!
