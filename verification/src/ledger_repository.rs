//! Point lookups over ledgers.

use vstd::prelude::*;

use crate::records::Ledger;
use crate::store::Store;

verus! {

/// The ledger with this id.
pub fn find_by_id(store: &Store, ledger_id_val: u128) -> (r: Option<&Ledger>)
    ensures
        match r {
            Some(l) => l.id == ledger_id_val && exists|k: int|
                0 <= k < store.ledgers@.len() && (#[trigger] store.ledgers@[k]) == *l,
            None => !store.has_ledger(ledger_id_val),
        },
{
    match store.find_ledger_index(ledger_id_val) {
        Some(i) => {
            let l = &store.ledgers[i];
            proof {
                assert(store.ledgers@[i as int] == *l);
            }
            Some(l)
        },
        None => None,
    }
}

/// The ledger with this name, of which the store holds at most one.
pub fn find_optional_by_name<'a>(store: &'a Store, ledger_name_val: &String) -> (r: Option<
    &'a Ledger,
>)
    ensures
        match r {
            Some(l) => l.name@ == ledger_name_val@ && exists|k: int|
                0 <= k < store.ledgers@.len() && (#[trigger] store.ledgers@[k]) == *l,
            None => !store.has_ledger_name(ledger_name_val@),
        },
{
    let mut k: usize = 0;
    while k < store.ledgers.len()
        invariant
            0 <= k <= store.ledgers@.len(),
            forall|t: int| 0 <= t < k ==> (#[trigger] store.ledgers@[t]).name@ != ledger_name_val@,
        decreases store.ledgers@.len() - k,
    {
        if store.ledgers[k].name == *ledger_name_val {
            let l = &store.ledgers[k];
            proof {
                assert(store.ledgers@[k as int] == *l);
            }
            return Some(l);
        }
        k = k + 1;
    }
    None
}

} // verus!
