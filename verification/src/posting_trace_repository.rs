//! Point lookups over audit traces.

use vstd::prelude::*;

use crate::records::PostingTrace;
use crate::store::Store;

verus! {

/// The audit trace with this id.
pub fn find_by_id(store: &Store, trace_id: u128) -> (r: Option<PostingTrace>)
    ensures
        match r {
            Some(tr) => tr.id == trace_id && exists|k: int|
                0 <= k < store.traces@.len() && (#[trigger] store.traces@[k]) == tr,
            None => forall|k: int|
                0 <= k < store.traces@.len() ==> (#[trigger] store.traces@[k]).id != trace_id,
        },
{
    let mut k: usize = 0;
    while k < store.traces.len()
        invariant
            0 <= k <= store.traces@.len(),
            forall|t: int| 0 <= t < k ==> (#[trigger] store.traces@[t]).id != trace_id,
        decreases store.traces@.len() - k,
    {
        let tr = store.traces[k];
        if tr.id == trace_id {
            proof {
                assert(store.traces@[k as int] == tr);
            }
            return Some(tr);
        }
        k = k + 1;
    }
    None
}

} // verus!
