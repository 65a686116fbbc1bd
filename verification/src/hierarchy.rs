//! The chart of accounts, ledgers and ledger accounts: created once,
//! read thereafter. Names are enforced unique (globally for charts and
//! ledgers, per ledger for accounts) and account parents must already
//! exist in the same ledger, so the account tree is cycle-free by
//! construction.

use vstd::prelude::*;

use crate::enums::{AccountCategory, BalanceSide};
use crate::errors::LedgerError;
use crate::records::{ChartOfAccount, Ledger, LedgerAccount};
use crate::store::Store;

verus! {

/// The ids of the accounts whose parent is `parent`, in creation order.
pub open spec fn spec_children(accounts: Seq<LedgerAccount>, parent: u128) -> Seq<u128>
    decreases accounts.len(),
{
    if accounts.len() == 0 {
        Seq::empty()
    } else {
        spec_children(accounts.drop_last(), parent) + if accounts.last().parent_id == Some(parent) {
            seq![accounts.last().id]
        } else {
            Seq::empty()
        }
    }
}

impl Store {
    /// A chart of accounts with this name exists.
    pub open spec fn has_chart_name(self, name: Seq<char>) -> bool {
        exists|k: int| 0 <= k < self.charts@.len() && (#[trigger] self.charts@[k]).name@ == name
    }

    /// A ledger with this name exists.
    pub open spec fn has_ledger_name(self, name: Seq<char>) -> bool {
        exists|k: int| 0 <= k < self.ledgers@.len() && (#[trigger] self.ledgers@[k]).name@ == name
    }

    /// An account with this name exists in the given ledger.
    pub open spec fn has_account_name(self, ledger_id: u128, name: Seq<char>) -> bool {
        exists|k: int|
            0 <= k < self.accounts@.len() && (#[trigger] self.accounts@[k]).ledger_id == ledger_id
                && self.accounts@[k].name@ == name
    }

    /// Creates a chart of accounts and returns its id; fails with
    /// `DuplicateNameError` exactly when the name is already taken.
    pub fn create_chart_of_account(
        &mut self,
        name: String,
        created: u64,
        user_details: String,
        short_desc: Option<String>,
        long_desc: Option<String>,
    ) -> (r: Result<u128, LedgerError>)
        requires
            old(self).wf(),
        ensures
            final(self).wf(),
            old(self).has_chart_name(name@) ==> r == Err::<u128, LedgerError>(
                LedgerError::DuplicateNameError,
            ) && *final(self) == *old(self),
            !old(self).has_chart_name(name@) ==> {
                &&& r == Ok::<u128, LedgerError>(old(self).next_id)
                &&& final(self).charts@.len() == old(self).charts@.len() + 1
                &&& forall|i: int|
                    0 <= i < old(self).charts@.len() ==> final(self).charts@[i] == old(
                        self,
                    ).charts@[i]
                &&& final(self).charts@.last().id == old(self).next_id
                &&& final(self).charts@.last().name == name
                &&& final(self).charts@.last().created == created
                &&& final(self).charts@.last().user_details == user_details
                &&& final(self).charts@.last().short_desc == short_desc
                &&& final(self).charts@.last().long_desc == long_desc
                &&& final(self).ledgers@ == old(self).ledgers@
                &&& final(self).accounts@ == old(self).accounts@
                &&& final(self).postings@ == old(self).postings@
                &&& final(self).lines@ == old(self).lines@
                &&& final(self).account_stmts@ == old(self).account_stmts@
                &&& final(self).ledger_stmts@ == old(self).ledger_stmts@
                &&& final(self).traces@ == old(self).traces@
                &&& final(self).next_id == old(self).next_id + 1
                &&& final(self).clock == old(self).clock
            },
    {
        let mut k: usize = 0;
        while k < self.charts.len()
            invariant
                0 <= k <= self.charts@.len(),
                forall|t: int| 0 <= t < k ==> (#[trigger] self.charts@[t]).name@ != name@,
            decreases self.charts@.len() - k,
        {
            if self.charts[k].name == name {
                proof {
                    assert(0 <= k < self.charts@.len() && self.charts@[k as int].name@ == name@);
                }
                return Err(LedgerError::DuplicateNameError);
            }
            k = k + 1;
        }
        proof {
            assert(!self.has_chart_name(name@));
        }
        self.counter_headroom();
        let id = self.next_id;
        self.charts.push(
            ChartOfAccount { id, created, user_details, short_desc, long_desc, name },
        );
        self.next_id = id + 1;
        proof {
            let pre = *old(self);
            let post = *self;
            assert(post.wf_charts()) by {
                reveal(Store::wf_charts);
                assert forall|i: int, j: int| 0 <= i < j < post.charts@.len() implies (
                #[trigger] post.charts@[i]).id < (#[trigger] post.charts@[j]).id by {
                    if j == post.charts@.len() - 1 {
                        assert(post.charts@[i] == pre.charts@[i]);
                        assert(pre.charts@[i].id < pre.next_id);
                    }
                }
                assert forall|i: int, j: int| 0 <= i < j < post.charts@.len() implies (
                #[trigger] post.charts@[i]).name@ != (#[trigger] post.charts@[j]).name@ by {
                    if j == post.charts@.len() - 1 {
                        assert(post.charts@[i] == pre.charts@[i]);
                        assert(pre.charts@[i].name@ != name@);
                    }
                }
            }
            Store::lemma_grow_ledgers(pre, post);
            Store::lemma_grow_accounts(pre, post);
            Store::lemma_grow_postings(pre, post);
            Store::lemma_grow_lines(pre, post);
            Store::lemma_grow_balanced(pre, post);
            Store::lemma_grow_account_stmts(pre, post);
            Store::lemma_grow_ledger_stmts(pre, post);
            Store::lemma_grow_traces(pre, post);
        }
        Ok(id)
    }

    /// Creates a ledger under the given chart of accounts and returns its
    /// id; fails with `NotFoundError` exactly when the chart does not
    /// exist, else with `DuplicateNameError` exactly when the ledger name
    /// is already taken.
    pub fn create_ledger(
        &mut self,
        name: String,
        coa_id: u128,
        created: u64,
        user_details: String,
        short_desc: Option<String>,
        long_desc: Option<String>,
    ) -> (r: Result<u128, LedgerError>)
        requires
            old(self).wf(),
        ensures
            final(self).wf(),
            !old(self).has_chart(coa_id) ==> r == Err::<u128, LedgerError>(
                LedgerError::NotFoundError,
            ) && *final(self) == *old(self),
            old(self).has_chart(coa_id) && old(self).has_ledger_name(name@) ==> r == Err::<
                u128,
                LedgerError,
            >(LedgerError::DuplicateNameError) && *final(self) == *old(self),
            old(self).has_chart(coa_id) && !old(self).has_ledger_name(name@) ==> {
                &&& r == Ok::<u128, LedgerError>(old(self).next_id)
                &&& final(self).ledgers@.len() == old(self).ledgers@.len() + 1
                &&& forall|i: int|
                    0 <= i < old(self).ledgers@.len() ==> final(self).ledgers@[i] == old(
                        self,
                    ).ledgers@[i]
                &&& final(self).ledgers@.last().id == old(self).next_id
                &&& final(self).ledgers@.last().name == name
                &&& final(self).ledgers@.last().coa_id == coa_id
                &&& final(self).ledgers@.last().created == created
                &&& final(self).charts@ == old(self).charts@
                &&& final(self).accounts@ == old(self).accounts@
                &&& final(self).postings@ == old(self).postings@
                &&& final(self).lines@ == old(self).lines@
                &&& final(self).account_stmts@ == old(self).account_stmts@
                &&& final(self).ledger_stmts@ == old(self).ledger_stmts@
                &&& final(self).traces@ == old(self).traces@
                &&& final(self).next_id == old(self).next_id + 1
                &&& final(self).clock == old(self).clock
            },
    {
        if self.find_chart_index(coa_id).is_none() {
            return Err(LedgerError::NotFoundError);
        }
        let mut k: usize = 0;
        while k < self.ledgers.len()
            invariant
                0 <= k <= self.ledgers@.len(),
                forall|t: int| 0 <= t < k ==> (#[trigger] self.ledgers@[t]).name@ != name@,
            decreases self.ledgers@.len() - k,
        {
            if self.ledgers[k].name == name {
                proof {
                    assert(0 <= k < self.ledgers@.len() && self.ledgers@[k as int].name@ == name@);
                }
                return Err(LedgerError::DuplicateNameError);
            }
            k = k + 1;
        }
        proof {
            assert(!self.has_ledger_name(name@));
        }
        self.counter_headroom();
        let id = self.next_id;
        self.ledgers.push(
            Ledger { id, created, user_details, short_desc, long_desc, name, coa_id },
        );
        self.next_id = id + 1;
        proof {
            let pre = *old(self);
            let post = *self;
            assert(post.wf_ledgers()) by {
                reveal(Store::wf_ledgers);
                assert forall|i: int, j: int| 0 <= i < j < post.ledgers@.len() implies (
                #[trigger] post.ledgers@[i]).id < (#[trigger] post.ledgers@[j]).id by {
                    if j == post.ledgers@.len() - 1 {
                        assert(post.ledgers@[i] == pre.ledgers@[i]);
                        assert(pre.ledgers@[i].id < pre.next_id);
                    }
                }
                assert forall|i: int, j: int| 0 <= i < j < post.ledgers@.len() implies (
                #[trigger] post.ledgers@[i]).name@ != (#[trigger] post.ledgers@[j]).name@ by {
                    if j == post.ledgers@.len() - 1 {
                        assert(post.ledgers@[i] == pre.ledgers@[i]);
                        assert(pre.ledgers@[i].name@ != name@);
                    }
                }
            }
            Store::lemma_grow_charts(pre, post);
            Store::lemma_grow_accounts(pre, post);
            Store::lemma_grow_postings(pre, post);
            Store::lemma_grow_lines(pre, post);
            Store::lemma_grow_balanced(pre, post);
            Store::lemma_grow_account_stmts(pre, post);
            Store::lemma_grow_ledger_stmts(pre, post);
            Store::lemma_grow_traces(pre, post);
        }
        Ok(id)
    }

    /// Creates an account in the given ledger and returns its id; fails
    /// with `NotFoundError` exactly when the ledger, or the named parent
    /// within that ledger, does not exist, else with `DuplicateNameError`
    /// exactly when the account name is already taken in that ledger.
    pub fn create_ledger_account(
        &mut self,
        ledger_id: u128,
        name: String,
        parent_id: Option<u128>,
        category: AccountCategory,
        balance_side: BalanceSide,
        created: u64,
        user_details: String,
        short_desc: Option<String>,
        long_desc: Option<String>,
    ) -> (r: Result<u128, LedgerError>)
        requires
            old(self).wf(),
        ensures
            final(self).wf(),
            ({
                let missing = !old(self).has_ledger(ledger_id) || (parent_id is Some && !old(
                    self,
                ).has_account_in_ledger(parent_id->Some_0, ledger_id));
                &&& missing ==> r == Err::<u128, LedgerError>(LedgerError::NotFoundError)
                    && *final(self) == *old(self)
                &&& !missing && old(self).has_account_name(ledger_id, name@) ==> r == Err::<
                    u128,
                    LedgerError,
                >(LedgerError::DuplicateNameError) && *final(self) == *old(self)
                &&& !missing && !old(self).has_account_name(ledger_id, name@) ==> {
                    &&& r == Ok::<u128, LedgerError>(old(self).next_id)
                    &&& final(self).accounts@.len() == old(self).accounts@.len() + 1
                    &&& forall|i: int|
                        0 <= i < old(self).accounts@.len() ==> final(self).accounts@[i] == old(
                            self,
                        ).accounts@[i]
                    &&& final(self).accounts@.last().id == old(self).next_id
                    &&& final(self).accounts@.last().name == name
                    &&& final(self).accounts@.last().ledger_id == ledger_id
                    &&& final(self).accounts@.last().parent_id == parent_id
                    &&& final(self).accounts@.last().category == category
                    &&& final(self).accounts@.last().balance_side == balance_side
                    &&& final(self).accounts@.last().created == created
                    &&& final(self).charts@ == old(self).charts@
                    &&& final(self).ledgers@ == old(self).ledgers@
                    &&& final(self).postings@ == old(self).postings@
                    &&& final(self).lines@ == old(self).lines@
                    &&& final(self).account_stmts@ == old(self).account_stmts@
                    &&& final(self).ledger_stmts@ == old(self).ledger_stmts@
                    &&& final(self).traces@ == old(self).traces@
                    &&& final(self).next_id == old(self).next_id + 1
                    &&& final(self).clock == old(self).clock
                }
            }),
    {
        if self.find_ledger_index(ledger_id).is_none() {
            return Err(LedgerError::NotFoundError);
        }
        match parent_id {
            Some(p) => {
                if self.find_account_in_ledger(p, ledger_id).is_none() {
                    return Err(LedgerError::NotFoundError);
                }
            },
            None => {},
        }
        let mut k: usize = 0;
        while k < self.accounts.len()
            invariant
                0 <= k <= self.accounts@.len(),
                forall|t: int|
                    0 <= t < k ==> !((#[trigger] self.accounts@[t]).ledger_id == ledger_id
                        && self.accounts@[t].name@ == name@),
            decreases self.accounts@.len() - k,
        {
            if self.accounts[k].ledger_id == ledger_id && self.accounts[k].name == name {
                proof {
                    assert(0 <= k < self.accounts@.len() && self.accounts@[k as int].ledger_id
                        == ledger_id && self.accounts@[k as int].name@ == name@);
                }
                return Err(LedgerError::DuplicateNameError);
            }
            k = k + 1;
        }
        proof {
            assert(!self.has_account_name(ledger_id, name@));
        }
        self.counter_headroom();
        let id = self.next_id;
        let coa_id = match self.find_ledger_index(ledger_id) {
            Some(li) => self.ledgers[li].coa_id,
            None => 0,
        };
        self.accounts.push(
            LedgerAccount {
                id,
                created,
                user_details,
                short_desc,
                long_desc,
                name,
                ledger_id,
                parent_id,
                coa_id,
                balance_side,
                category,
            },
        );
        self.next_id = id + 1;
        proof {
            let pre = *old(self);
            let post = *self;
            assert(post.wf_accounts()) by {
                reveal(Store::wf_accounts);
                assert forall|i: int, j: int| 0 <= i < j < post.accounts@.len() implies (
                #[trigger] post.accounts@[i]).id < (#[trigger] post.accounts@[j]).id by {
                    if j == post.accounts@.len() - 1 {
                        assert(post.accounts@[i] == pre.accounts@[i]);
                        assert(pre.accounts@[i].id < pre.next_id);
                    }
                }
                assert forall|i: int, j: int|
                    0 <= i < j < post.accounts@.len() && (#[trigger] post.accounts@[i]).ledger_id
                        == (#[trigger] post.accounts@[j]).ledger_id implies post.accounts@[i].name@
                    != post.accounts@[j].name@ by {
                    if j == post.accounts@.len() - 1 {
                        assert(post.accounts@[i] == pre.accounts@[i]);
                        assert(!(pre.accounts@[i].ledger_id == ledger_id && pre.accounts@[i].name@
                            == name@));
                    }
                }
            }
            Store::lemma_grow_charts(pre, post);
            Store::lemma_grow_ledgers(pre, post);
            Store::lemma_grow_postings(pre, post);
            Store::lemma_grow_lines(pre, post);
            Store::lemma_grow_balanced(pre, post);
            Store::lemma_grow_account_stmts(pre, post);
            Store::lemma_grow_ledger_stmts(pre, post);
            Store::lemma_grow_traces(pre, post);
        }
        Ok(id)
    }

    /// The ids of the direct children of the given account, in creation
    /// order.
    pub fn children_of(&self, account_id: u128) -> (r: Vec<u128>)
        ensures
            r@ == spec_children(self.accounts@, account_id),
    {
        let mut r: Vec<u128> = Vec::new();
        let mut k: usize = 0;
        while k < self.accounts.len()
            invariant
                0 <= k <= self.accounts@.len(),
                r@ == spec_children(self.accounts@.take(k as int), account_id),
            decreases self.accounts@.len() - k,
        {
            let is_child = match self.accounts[k].parent_id {
                Some(p) => p == account_id,
                None => false,
            };
            if is_child {
                r.push(self.accounts[k].id);
            }
            k = k + 1;
            proof {
                assert(self.accounts@.take(k as int).drop_last() =~= self.accounts@.take(k - 1));
                assert(self.accounts@.take(k as int).last() == self.accounts@[k - 1]);
            }
        }
        proof {
            assert(self.accounts@.take(self.accounts@.len() as int) =~= self.accounts@);
        }
        r
    }
}

} // verus!
