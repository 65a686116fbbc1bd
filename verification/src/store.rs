//! The in-memory ledger store: append-only collections of records, the
//! well-formedness invariant that every operation preserves, and the
//! lookup helpers the operations share.
//!
//! The store realizes the narrow persistence contract the core needs —
//! point lookups, ordered scans, atomic multi-row appends with uniqueness
//! enforcement — as verified code over plain vectors.

use vstd::prelude::*;

use crate::chain::chain_ok;
use crate::enums::{PostingType, StmtStatus};
use crate::hash::spec_line_hash;
use crate::records::{
    AccountStmt, ChartOfAccount, Ledger, LedgerAccount, LedgerStmt, Posting, PostingLine,
    PostingTrace,
};
use crate::sums::{credit_sum, debit_sum, genesis_lo, posting_credit_total, posting_debit_total};

verus! {

/// A posting type that documents a statement rather than a transaction;
/// only such postings may carry lines with both sides zero.
pub open spec fn spec_is_stmt_type(t: PostingType) -> bool {
    match t {
        PostingType::BusiTx => false,
        PostingType::AdjTx => false,
        PostingType::BalStmt => true,
        PostingType::PnLStmt => true,
        PostingType::BsStmt => true,
        PostingType::LdgClsng => true,
    }
}

/// Returns whether `t` documents a statement.
pub fn is_stmt_type(t: PostingType) -> (r: bool)
    ensures
        r == spec_is_stmt_type(t),
{
    match t {
        PostingType::BusiTx => false,
        PostingType::AdjTx => false,
        PostingType::BalStmt => true,
        PostingType::PnLStmt => true,
        PostingType::BsStmt => true,
        PostingType::LdgClsng => true,
    }
}

/// A posting counts for normal reads while it is not superseded.
pub open spec fn posting_active(p: Posting) -> bool {
    p.discarded_time is None
}

/// The whole ledger system: charts of accounts, ledgers, accounts, the
/// posting log with its lines, statements, and audit traces, together
/// with the id and record-time counters.
pub struct Store {
    pub charts: Vec<ChartOfAccount>,
    pub ledgers: Vec<Ledger>,
    pub accounts: Vec<LedgerAccount>,
    pub postings: Vec<Posting>,
    pub lines: Vec<PostingLine>,
    pub account_stmts: Vec<AccountStmt>,
    pub ledger_stmts: Vec<LedgerStmt>,
    pub traces: Vec<PostingTrace>,
    /// The next identity to assign; greater than every stored id.
    pub next_id: u128,
    /// The next record time to assign; equals the number of postings.
    pub clock: u128,
}

impl Store {
    /// A chart of accounts with this id exists.
    pub open spec fn has_chart(self, id: u128) -> bool {
        exists|k: int| 0 <= k < self.charts@.len() && (#[trigger] self.charts@[k]).id == id
    }

    /// A ledger with this id exists.
    pub open spec fn has_ledger(self, id: u128) -> bool {
        exists|k: int| 0 <= k < self.ledgers@.len() && (#[trigger] self.ledgers@[k]).id == id
    }

    /// An account with this id exists.
    pub open spec fn has_account(self, id: u128) -> bool {
        exists|k: int| 0 <= k < self.accounts@.len() && (#[trigger] self.accounts@[k]).id == id
    }

    /// An account with this id exists in the given ledger.
    pub open spec fn has_account_in_ledger(self, id: u128, ledger_id: u128) -> bool {
        exists|k: int|
            0 <= k < self.accounts@.len() && (#[trigger] self.accounts@[k]).id == id
                && self.accounts@[k].ledger_id == ledger_id
    }

    /// A posting with this id exists.
    pub open spec fn has_posting(self, id: u128) -> bool {
        exists|k: int| 0 <= k < self.postings@.len() && (#[trigger] self.postings@[k]).id == id
    }

    /// A line with this id exists.
    pub open spec fn has_line(self, id: u128) -> bool {
        exists|k: int| 0 <= k < self.lines@.len() && (#[trigger] self.lines@[k]).id == id
    }

    /// A non-discarded posting with this operation id exists.
    pub open spec fn has_active_opr(self, opr_id: u64) -> bool {
        exists|k: int|
            0 <= k < self.postings@.len() && (#[trigger] self.postings@[k]).opr_id == opr_id
                && posting_active(self.postings@[k])
    }

    /// Charts: ids strictly increasing and below the counter, names
    /// globally unique.
    #[verifier::opaque]
    pub open spec fn wf_charts(self) -> bool {
        &&& forall|i: int, j: int|
            0 <= i < j < self.charts@.len() ==> (#[trigger] self.charts@[i]).id < (
            #[trigger] self.charts@[j]).id
        &&& forall|i: int|
            0 <= i < self.charts@.len() ==> (#[trigger] self.charts@[i]).id < self.next_id
        &&& forall|i: int, j: int|
            0 <= i < j < self.charts@.len() ==> (#[trigger] self.charts@[i]).name@ != (
            #[trigger] self.charts@[j]).name@
    }

    /// Ledgers: ids strictly increasing and below the counter, names
    /// unique within the system.
    #[verifier::opaque]
    pub open spec fn wf_ledgers(self) -> bool {
        &&& forall|i: int, j: int|
            0 <= i < j < self.ledgers@.len() ==> (#[trigger] self.ledgers@[i]).id < (
            #[trigger] self.ledgers@[j]).id
        &&& forall|i: int|
            0 <= i < self.ledgers@.len() ==> (#[trigger] self.ledgers@[i]).id < self.next_id
        &&& forall|i: int, j: int|
            0 <= i < j < self.ledgers@.len() ==> (#[trigger] self.ledgers@[i]).name@ != (
            #[trigger] self.ledgers@[j]).name@
    }

    /// Accounts: ids strictly increasing and below the counter, names
    /// unique within their ledger.
    #[verifier::opaque]
    pub open spec fn wf_accounts(self) -> bool {
        &&& forall|i: int, j: int|
            0 <= i < j < self.accounts@.len() ==> (#[trigger] self.accounts@[i]).id < (
            #[trigger] self.accounts@[j]).id
        &&& forall|i: int|
            0 <= i < self.accounts@.len() ==> (#[trigger] self.accounts@[i]).id < self.next_id
        &&& forall|i: int, j: int|
            0 <= i < j < self.accounts@.len() && (#[trigger] self.accounts@[i]).ledger_id == (
            #[trigger] self.accounts@[j]).ledger_id ==> self.accounts@[i].name@
                != self.accounts@[j].name@
    }

    /// Postings: ids strictly increasing and below the counter, record
    /// time equal to storage position (so record-time order is storage
    /// order), the clock one past the last record time, discard markers
    /// consistent, and at most one non-discarded posting per operation
    /// id.
    #[verifier::opaque]
    pub open spec fn wf_postings(self) -> bool {
        &&& forall|i: int, j: int|
            0 <= i < j < self.postings@.len() ==> (#[trigger] self.postings@[i]).id < (
            #[trigger] self.postings@[j]).id
        &&& forall|i: int|
            0 <= i < self.postings@.len() ==> (#[trigger] self.postings@[i]).id < self.next_id
        &&& forall|i: int|
            0 <= i < self.postings@.len() ==> (#[trigger] self.postings@[i]).record_time == i
        &&& self.clock == self.postings@.len()
        &&& forall|i: int|
            0 <= i < self.postings@.len() ==> ((#[trigger] self.postings@[i]).discarded_id is Some
                <==> self.postings@[i].discarded_time is Some)
        &&& forall|i: int, j: int|
            0 <= i < j < self.postings@.len() && (#[trigger] self.postings@[i]).opr_id == (
            #[trigger] self.postings@[j]).opr_id ==> !(posting_active(self.postings@[i])
                && posting_active(self.postings@[j]))
    }

    /// Lines: ids strictly increasing and below the counter, owning
    /// posting id below the counter, record times non-decreasing in
    /// storage order and below the clock (so storage order is record-time
    /// order, as for postings), discard marker mirroring the owning
    /// posting's, amounts well-shaped, and stored hash equal to the
    /// content hash.
    #[verifier::opaque]
    pub open spec fn wf_lines(self) -> bool {
        &&& forall|i: int, j: int|
            0 <= i < j < self.lines@.len() ==> (#[trigger] self.lines@[i]).id < (
            #[trigger] self.lines@[j]).id
        &&& forall|i: int|
            0 <= i < self.lines@.len() ==> (#[trigger] self.lines@[i]).id < self.next_id
        &&& forall|i: int|
            0 <= i < self.lines@.len() ==> (#[trigger] self.lines@[i]).posting_id < self.next_id
        &&& forall|i: int, j: int|
            0 <= i < j < self.lines@.len() ==> (#[trigger] self.lines@[i]).record_time <= (
            #[trigger] self.lines@[j]).record_time
        &&& forall|i: int|
            0 <= i < self.lines@.len() ==> (#[trigger] self.lines@[i]).record_time < self.clock
        &&& forall|li: int, pj: int|
            0 <= li < self.lines@.len() && 0 <= pj < self.postings@.len() && (
            #[trigger] self.postings@[pj]).id == (#[trigger] self.lines@[li]).posting_id
                ==> self.lines@[li].discarded_time == self.postings@[pj].discarded_time
        &&& forall|i: int|
            0 <= i < self.lines@.len() ==> ((#[trigger] self.lines@[i]).debit_amount == 0
                || self.lines@[i].credit_amount == 0)
        &&& forall|i: int|
            0 <= i < self.lines@.len() && (#[trigger] self.lines@[i]).debit_amount == 0
                && self.lines@[i].credit_amount == 0 ==> spec_is_stmt_type(self.lines@[i].pst_type)
        &&& forall|i: int|
            0 <= i < self.lines@.len() ==> (#[trigger] self.lines@[i]).hash == spec_line_hash(
                self.lines@[i],
            )
    }

    /// Every posting's lines balance: total debit equals total credit.
    #[verifier::opaque]
    pub open spec fn wf_balanced(self) -> bool {
        forall|j: int|
            0 <= j < self.postings@.len() ==> posting_debit_total(
                self.lines@,
                (#[trigger] self.postings@[j]).id,
            ) == posting_credit_total(self.lines@, self.postings@[j].id)
    }

    /// Account statements: ids strictly increasing and below the counter,
    /// sequence numbers and cutoffs strictly increasing per owner,
    /// sequence numbers bounded by position, and every closed statement's
    /// totals equal to the genesis fold of the store's current
    /// non-discarded lines up to its cutoff.
    #[verifier::opaque]
    pub open spec fn wf_account_stmts(self) -> bool {
        &&& forall|i: int, j: int|
            0 <= i < j < self.account_stmts@.len() ==> (#[trigger] self.account_stmts@[i]).id < (
            #[trigger] self.account_stmts@[j]).id
        &&& forall|i: int|
            0 <= i < self.account_stmts@.len() ==> (#[trigger] self.account_stmts@[i]).id
                < self.next_id
        &&& forall|i: int, j: int|
            0 <= i < j < self.account_stmts@.len() && (
            #[trigger] self.account_stmts@[i]).account_id == (
            #[trigger] self.account_stmts@[j]).account_id ==> self.account_stmts@[i].stmt_seq_nbr
                < self.account_stmts@[j].stmt_seq_nbr && self.account_stmts@[i].pst_time
                < self.account_stmts@[j].pst_time
        &&& forall|i: int|
            0 <= i < self.account_stmts@.len() ==> 1 <= (
            #[trigger] self.account_stmts@[i]).stmt_seq_nbr <= i + 1
        &&& forall|i: int|
            0 <= i < self.account_stmts@.len() && (#[trigger] self.account_stmts@[i]).stmt_status
                == StmtStatus::CLOSED ==> {
                &&& self.account_stmts@[i].total_debit == debit_sum(
                    self.lines@,
                    self.account_stmts@[i].account_id,
                    genesis_lo(),
                    self.account_stmts@[i].pst_time as int,
                )
                &&& self.account_stmts@[i].total_credit == credit_sum(
                    self.lines@,
                    self.account_stmts@[i].account_id,
                    genesis_lo(),
                    self.account_stmts@[i].pst_time as int,
                )
            }
    }

    /// Ledger statements: ids strictly increasing and below the counter,
    /// sequence numbers and cutoffs strictly increasing per owner,
    /// sequence numbers bounded by position.
    #[verifier::opaque]
    pub open spec fn wf_ledger_stmts(self) -> bool {
        &&& forall|i: int, j: int|
            0 <= i < j < self.ledger_stmts@.len() ==> (#[trigger] self.ledger_stmts@[i]).id < (
            #[trigger] self.ledger_stmts@[j]).id
        &&& forall|i: int|
            0 <= i < self.ledger_stmts@.len() ==> (#[trigger] self.ledger_stmts@[i]).id
                < self.next_id
        &&& forall|i: int, j: int|
            0 <= i < j < self.ledger_stmts@.len() && (#[trigger] self.ledger_stmts@[i]).ledger_id
                == (#[trigger] self.ledger_stmts@[j]).ledger_id
                ==> self.ledger_stmts@[i].stmt_seq_nbr < self.ledger_stmts@[j].stmt_seq_nbr
                && self.ledger_stmts@[i].pst_time < self.ledger_stmts@[j].pst_time
        &&& forall|i: int|
            0 <= i < self.ledger_stmts@.len() ==> 1 <= (
            #[trigger] self.ledger_stmts@[i]).stmt_seq_nbr <= i + 1
    }

    /// Traces: ids strictly increasing and below the counter.
    #[verifier::opaque]
    pub open spec fn wf_traces(self) -> bool {
        &&& forall|i: int, j: int|
            0 <= i < j < self.traces@.len() ==> (#[trigger] self.traces@[i]).id < (
            #[trigger] self.traces@[j]).id
        &&& forall|i: int|
            0 <= i < self.traces@.len() ==> (#[trigger] self.traces@[i]).id < self.next_id
    }

    /// The id counter never ran ahead of the number of stored records, so
    /// it has room to grow.
    pub open spec fn wf_counter(self) -> bool {
        self.next_id as int <= self.charts@.len() + self.ledgers@.len() + self.accounts@.len()
            + self.postings@.len() + self.lines@.len() + self.account_stmts@.len()
            + self.ledger_stmts@.len() + self.traces@.len()
    }

    /// The store's full well-formedness invariant: established by `new`,
    /// required and preserved by every operation.
    pub open spec fn wf(self) -> bool {
        &&& self.wf_charts()
        &&& self.wf_ledgers()
        &&& self.wf_accounts()
        &&& self.wf_postings()
        &&& self.wf_lines()
        &&& self.wf_balanced()
        &&& chain_ok(self.postings@, self.lines@)
        &&& self.wf_account_stmts()
        &&& self.wf_ledger_stmts()
        &&& self.wf_traces()
        &&& self.wf_counter()
    }

    /// Creates an empty store.
    pub fn new() -> (s: Store)
        ensures
            s.wf(),
            s.charts@.len() == 0,
            s.ledgers@.len() == 0,
            s.accounts@.len() == 0,
            s.postings@.len() == 0,
            s.lines@.len() == 0,
            s.account_stmts@.len() == 0,
            s.ledger_stmts@.len() == 0,
            s.traces@.len() == 0,
    {
        let s = Store {
            charts: Vec::new(),
            ledgers: Vec::new(),
            accounts: Vec::new(),
            postings: Vec::new(),
            lines: Vec::new(),
            account_stmts: Vec::new(),
            ledger_stmts: Vec::new(),
            traces: Vec::new(),
            next_id: 0,
            clock: 0,
        };
        proof {
            reveal(crate::chain::chain_ok);
            reveal(Store::wf_charts);
            reveal(Store::wf_ledgers);
            reveal(Store::wf_accounts);
            reveal(Store::wf_postings);
            reveal(Store::wf_lines);
            reveal(Store::wf_balanced);
            reveal(Store::wf_account_stmts);
            reveal(Store::wf_ledger_stmts);
            reveal(Store::wf_traces);
        }
        s
    }

    /// Each predicate below transfers to a store whose relevant
    /// collections are unchanged while the id counter may have grown.
    pub proof fn lemma_grow_charts(pre: Store, post: Store)
        requires
            pre.wf_charts(),
            post.charts@ == pre.charts@,
            pre.next_id <= post.next_id,
        ensures
            post.wf_charts(),
    {
        reveal(Store::wf_charts);
    }

    /// `wf_ledgers` under an unchanged ledger collection.
    pub proof fn lemma_grow_ledgers(pre: Store, post: Store)
        requires
            pre.wf_ledgers(),
            post.ledgers@ == pre.ledgers@,
            pre.next_id <= post.next_id,
        ensures
            post.wf_ledgers(),
    {
        reveal(Store::wf_ledgers);
    }

    /// `wf_accounts` under an unchanged account collection.
    pub proof fn lemma_grow_accounts(pre: Store, post: Store)
        requires
            pre.wf_accounts(),
            post.accounts@ == pre.accounts@,
            pre.next_id <= post.next_id,
        ensures
            post.wf_accounts(),
    {
        reveal(Store::wf_accounts);
    }

    /// `wf_postings` under an unchanged posting log.
    pub proof fn lemma_grow_postings(pre: Store, post: Store)
        requires
            pre.wf_postings(),
            post.postings@ == pre.postings@,
            post.clock == pre.clock,
            pre.next_id <= post.next_id,
        ensures
            post.wf_postings(),
    {
        reveal(Store::wf_postings);
    }

    /// `wf_lines` under unchanged lines and postings.
    pub proof fn lemma_grow_lines(pre: Store, post: Store)
        requires
            pre.wf_lines(),
            post.lines@ == pre.lines@,
            post.postings@ == pre.postings@,
            post.clock == pre.clock,
            pre.next_id <= post.next_id,
        ensures
            post.wf_lines(),
    {
        reveal(Store::wf_lines);
    }

    /// `wf_balanced` under unchanged lines and postings.
    pub proof fn lemma_grow_balanced(pre: Store, post: Store)
        requires
            pre.wf_balanced(),
            post.lines@ == pre.lines@,
            post.postings@ == pre.postings@,
        ensures
            post.wf_balanced(),
    {
        reveal(Store::wf_balanced);
    }

    /// `wf_account_stmts` under unchanged statements and lines.
    pub proof fn lemma_grow_account_stmts(pre: Store, post: Store)
        requires
            pre.wf_account_stmts(),
            post.account_stmts@ == pre.account_stmts@,
            post.lines@ == pre.lines@,
            pre.next_id <= post.next_id,
        ensures
            post.wf_account_stmts(),
    {
        reveal(Store::wf_account_stmts);
    }

    /// `wf_ledger_stmts` under unchanged statements.
    pub proof fn lemma_grow_ledger_stmts(pre: Store, post: Store)
        requires
            pre.wf_ledger_stmts(),
            post.ledger_stmts@ == pre.ledger_stmts@,
            pre.next_id <= post.next_id,
        ensures
            post.wf_ledger_stmts(),
    {
        reveal(Store::wf_ledger_stmts);
    }

    /// `wf_traces` under an unchanged trace collection.
    pub proof fn lemma_grow_traces(pre: Store, post: Store)
        requires
            pre.wf_traces(),
            post.traces@ == pre.traces@,
            pre.next_id <= post.next_id,
        ensures
            post.wf_traces(),
    {
        reveal(Store::wf_traces);
    }

    /// Observes the collection sizes, which bounds the id counter far
    /// below its type's maximum: there is room for any one batch of new
    /// identities.
    pub(crate) fn counter_headroom(&self)
        requires
            self.wf_counter(),
        ensures
            self.next_id as int + usize::MAX as int + 1 < u128::MAX as int,
    {
        let _n0: usize = self.charts.len();
        let _n1: usize = self.ledgers.len();
        let _n2: usize = self.accounts.len();
        let _n3: usize = self.postings.len();
        let _n4: usize = self.lines.len();
        let _n5: usize = self.account_stmts.len();
        let _n6: usize = self.ledger_stmts.len();
        let _n7: usize = self.traces.len();
    }

    /// Position of the chart with this id, if stored.
    pub(crate) fn find_chart_index(&self, id: u128) -> (r: Option<usize>)
        ensures
            match r {
                Some(i) => i < self.charts@.len() && self.charts@[i as int].id == id,
                None => !self.has_chart(id),
            },
    {
        let mut k: usize = 0;
        while k < self.charts.len()
            invariant
                0 <= k <= self.charts@.len(),
                forall|t: int| 0 <= t < k ==> (#[trigger] self.charts@[t]).id != id,
            decreases self.charts@.len() - k,
        {
            if self.charts[k].id == id {
                return Some(k);
            }
            k = k + 1;
        }
        None
    }

    /// Position of the ledger with this id, if stored.
    pub(crate) fn find_ledger_index(&self, id: u128) -> (r: Option<usize>)
        ensures
            match r {
                Some(i) => i < self.ledgers@.len() && self.ledgers@[i as int].id == id,
                None => !self.has_ledger(id),
            },
    {
        let mut k: usize = 0;
        while k < self.ledgers.len()
            invariant
                0 <= k <= self.ledgers@.len(),
                forall|t: int| 0 <= t < k ==> (#[trigger] self.ledgers@[t]).id != id,
            decreases self.ledgers@.len() - k,
        {
            if self.ledgers[k].id == id {
                return Some(k);
            }
            k = k + 1;
        }
        None
    }

    /// Position of the account with this id, if stored.
    pub(crate) fn find_account_index(&self, id: u128) -> (r: Option<usize>)
        ensures
            match r {
                Some(i) => i < self.accounts@.len() && self.accounts@[i as int].id == id,
                None => !self.has_account(id),
            },
    {
        let mut k: usize = 0;
        while k < self.accounts.len()
            invariant
                0 <= k <= self.accounts@.len(),
                forall|t: int| 0 <= t < k ==> (#[trigger] self.accounts@[t]).id != id,
            decreases self.accounts@.len() - k,
        {
            if self.accounts[k].id == id {
                return Some(k);
            }
            k = k + 1;
        }
        None
    }

    /// Position of the posting with this id, if stored.
    pub(crate) fn find_posting_index(&self, id: u128) -> (r: Option<usize>)
        ensures
            match r {
                Some(i) => i < self.postings@.len() && self.postings@[i as int].id == id,
                None => !self.has_posting(id),
            },
    {
        let mut k: usize = 0;
        while k < self.postings.len()
            invariant
                0 <= k <= self.postings@.len(),
                forall|t: int| 0 <= t < k ==> (#[trigger] self.postings@[t]).id != id,
            decreases self.postings@.len() - k,
        {
            if self.postings[k].id == id {
                return Some(k);
            }
            k = k + 1;
        }
        None
    }

    /// Position of the line with this id, if stored.
    pub(crate) fn find_line_index(&self, id: u128) -> (r: Option<usize>)
        ensures
            match r {
                Some(i) => i < self.lines@.len() && self.lines@[i as int].id == id,
                None => !self.has_line(id),
            },
    {
        let mut k: usize = 0;
        while k < self.lines.len()
            invariant
                0 <= k <= self.lines@.len(),
                forall|t: int| 0 <= t < k ==> (#[trigger] self.lines@[t]).id != id,
            decreases self.lines@.len() - k,
        {
            if self.lines[k].id == id {
                return Some(k);
            }
            k = k + 1;
        }
        None
    }

    /// Position of the account with this id within the given ledger, if
    /// stored there.
    pub(crate) fn find_account_in_ledger(&self, id: u128, ledger_id: u128) -> (r: Option<usize>)
        ensures
            match r {
                Some(i) => i < self.accounts@.len() && self.accounts@[i as int].id == id
                    && self.accounts@[i as int].ledger_id == ledger_id,
                None => !self.has_account_in_ledger(id, ledger_id),
            },
    {
        let mut k: usize = 0;
        while k < self.accounts.len()
            invariant
                0 <= k <= self.accounts@.len(),
                forall|t: int|
                    0 <= t < k ==> !((#[trigger] self.accounts@[t]).id == id
                        && self.accounts@[t].ledger_id == ledger_id),
            decreases self.accounts@.len() - k,
        {
            if self.accounts[k].id == id && self.accounts[k].ledger_id == ledger_id {
                return Some(k);
            }
            k = k + 1;
        }
        None
    }

    /// Position of the ledger's chain head: its latest posting in
    /// record-time order, which is storage order.
    pub(crate) fn head_index(&self, ledger_id: u128) -> (r: Option<usize>)
        ensures
            match r {
                Some(i) => i < self.postings@.len() && self.postings@[i as int].ledger_id
                    == ledger_id && forall|t: int|
                    i < t < self.postings@.len() ==> (#[trigger] self.postings@[t]).ledger_id
                        != ledger_id,
                None => forall|t: int|
                    0 <= t < self.postings@.len() ==> (#[trigger] self.postings@[t]).ledger_id
                        != ledger_id,
            },
    {
        let mut r: Option<usize> = None;
        let mut k: usize = 0;
        while k < self.postings.len()
            invariant
                0 <= k <= self.postings@.len(),
                match r {
                    Some(i) => i < k && self.postings@[i as int].ledger_id == ledger_id
                        && forall|t: int|
                        i < t < k ==> (#[trigger] self.postings@[t]).ledger_id != ledger_id,
                    None => forall|t: int|
                        0 <= t < k ==> (#[trigger] self.postings@[t]).ledger_id != ledger_id,
                },
            decreases self.postings@.len() - k,
        {
            if self.postings[k].ledger_id == ledger_id {
                r = Some(k);
            }
            k = k + 1;
        }
        r
    }

    /// Whether a non-discarded posting with this operation id exists.
    pub(crate) fn active_opr_exists(&self, opr_id: u64) -> (r: bool)
        ensures
            r == self.has_active_opr(opr_id),
    {
        let mut k: usize = 0;
        while k < self.postings.len()
            invariant
                0 <= k <= self.postings@.len(),
                forall|t: int|
                    0 <= t < k ==> !((#[trigger] self.postings@[t]).opr_id == opr_id
                        && posting_active(self.postings@[t])),
            decreases self.postings@.len() - k,
        {
            if self.postings[k].opr_id == opr_id && self.postings[k].discarded_time.is_none() {
                return true;
            }
            k = k + 1;
        }
        false
    }
}

} // verus!
