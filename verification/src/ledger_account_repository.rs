//! Point lookups over ledger accounts.

use vstd::prelude::*;

use crate::records::LedgerAccount;
use crate::store::Store;

verus! {

/// The account with this id.
pub fn find_by_id(store: &Store, account_id_val: u128) -> (r: Option<&LedgerAccount>)
    ensures
        match r {
            Some(a) => a.id == account_id_val && exists|k: int|
                0 <= k < store.accounts@.len() && (#[trigger] store.accounts@[k]) == *a,
            None => !store.has_account(account_id_val),
        },
{
    match store.find_account_index(account_id_val) {
        Some(i) => {
            let a = &store.accounts[i];
            proof {
                assert(store.accounts@[i as int] == *a);
            }
            Some(a)
        },
        None => None,
    }
}

/// The account with this name within the given ledger, of which the
/// store holds at most one.
pub fn find_optional_by_ledger_and_name<'a>(
    store: &'a Store,
    ledger_id_val: u128,
    account_name: &String,
) -> (r: Option<&'a LedgerAccount>)
    ensures
        match r {
            Some(a) => a.ledger_id == ledger_id_val && a.name@ == account_name@ && exists|k: int|
                0 <= k < store.accounts@.len() && (#[trigger] store.accounts@[k]) == *a,
            None => !store.has_account_name(ledger_id_val, account_name@),
        },
{
    let mut k: usize = 0;
    while k < store.accounts.len()
        invariant
            0 <= k <= store.accounts@.len(),
            forall|t: int|
                0 <= t < k ==> !((#[trigger] store.accounts@[t]).ledger_id == ledger_id_val
                    && store.accounts@[t].name@ == account_name@),
        decreases store.accounts@.len() - k,
    {
        if store.accounts[k].ledger_id == ledger_id_val && store.accounts[k].name == *account_name {
            let a = &store.accounts[k];
            proof {
                assert(store.accounts@[k as int] == *a);
            }
            return Some(a);
        }
        k = k + 1;
    }
    None
}

} // verus!
