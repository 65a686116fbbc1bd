//! Superseding a posting: the discard marker is set on the old posting
//! and its lines, a replacement posting is appended, and audit traces
//! link the replacement to each superseded account effect. History is
//! never removed: a discarded posting stays stored, excluded from normal
//! balance reads and still reachable by audit queries.

use vstd::prelude::*;

use crate::chain::{chain_ok, lemma_line_hashes_pointwise, line_hashes_of};
use crate::enums::StmtStatus;
use crate::errors::LedgerError;
use crate::records::{LineInput, Posting, PostingLine, PostingTrace};
use crate::store::{posting_active, Store};
use crate::sums::{
    credit_sum, debit_sum, genesis_lo, lemma_posting_total_pointwise, lemma_sum_pointwise,
    line_in_scope,
};

verus! {

/// How many stored lines belong to the posting.
pub open spec fn spec_lines_of_count(lines: Seq<PostingLine>, posting_id: u128) -> int
    decreases lines.len(),
{
    if lines.len() == 0 {
        0
    } else {
        spec_lines_of_count(lines.drop_last(), posting_id) + if lines.last().posting_id
            == posting_id {
            1int
        } else {
            0int
        }
    }
}

/// Concatenation splits the per-posting line count.
proof fn lemma_count_append(a: Seq<PostingLine>, b: Seq<PostingLine>, posting_id: u128)
    ensures
        spec_lines_of_count(a + b, posting_id) == spec_lines_of_count(a, posting_id)
            + spec_lines_of_count(b, posting_id),
    decreases b.len(),
{
    if b.len() == 0 {
        assert(a + b =~= a);
    } else {
        lemma_count_append(a, b.drop_last(), posting_id);
        assert((a + b).drop_last() =~= a + b.drop_last());
        assert((a + b).last() == b.last());
    }
}

/// The per-posting line count lies between zero and the sequence length.
proof fn lemma_count_bounds(lines: Seq<PostingLine>, posting_id: u128)
    ensures
        0 <= spec_lines_of_count(lines, posting_id) <= lines.len(),
    decreases lines.len(),
{
    if lines.len() > 0 {
        lemma_count_bounds(lines.drop_last(), posting_id);
    }
}

/// A posting owning no line of the sequence counts no line there.
proof fn lemma_count_absent(lines: Seq<PostingLine>, posting_id: u128)
    requires
        forall|e: int| 0 <= e < lines.len() ==> (#[trigger] lines[e]).posting_id != posting_id,
    ensures
        spec_lines_of_count(lines, posting_id) == 0,
    decreases lines.len(),
{
    if lines.len() > 0 {
        lemma_count_absent(lines.drop_last(), posting_id);
    }
}

impl Store {
    /// Some line of this posting lies at or before a closed statement
    /// cutoff of its account, so discarding it would change closed
    /// totals.
    pub open spec fn discard_behind_cutoff(self, posting_id: u128) -> bool {
        exists|li: int, si: int|
            0 <= li < self.lines@.len() && 0 <= si < self.account_stmts@.len() && (
            #[trigger] self.lines@[li]).posting_id == posting_id && (
            #[trigger] self.account_stmts@[si]).stmt_status == StmtStatus::CLOSED
                && self.account_stmts@[si].account_id == self.lines@[li].account_id
                && self.account_stmts@[si].pst_time >= self.lines@[li].pst_time
    }

    /// A non-discarded posting with this id exists.
    pub open spec fn has_active_posting(self, id: u128) -> bool {
        exists|k: int|
            0 <= k < self.postings@.len() && (#[trigger] self.postings@[k]).id == id
                && posting_active(self.postings@[k])
    }

    /// Supersedes a posting: appends a replacement built from `inputs`
    /// under a fresh operation id, marks the old posting and its lines
    /// discarded at the replacement's record time, and records one audit
    /// trace per superseded line, linking the replacement to the account
    /// effect it superseded. Atomic: on any error the store is
    /// unchanged. The error cases, in order: `NotFoundError` when
    /// `old_posting_id` does not name a non-discarded posting;
    /// `OutOfOrderCheckpointError` when a superseded line lies at or
    /// before a closed statement cutoff of its account; then the
    /// replacement batch passes exactly `append`'s validation against
    /// the old posting's ledger, type and the fresh operation id — and
    /// when all of that holds, the operation succeeds.
    pub fn discard_and_replace(
        &mut self,
        old_posting_id: u128,
        new_opr_id: u64,
        inputs: &Vec<LineInput>,
        value_time: u64,
    ) -> (r: Result<(u128, u64), LedgerError>)
        requires
            old(self).wf(),
        ensures
            final(self).wf(),
            !old(self).has_active_posting(old_posting_id) ==> r == Err::<(u128, u64), LedgerError>(
                LedgerError::NotFoundError,
            ) && *final(self) == *old(self),
            r is Err ==> *final(self) == *old(self),
            forall|k: int|
                0 <= k < old(self).postings@.len() && (#[trigger] old(self).postings@[k]).id
                    == old_posting_id && posting_active(old(self).postings@[k]) ==> {
                    let oldp = old(self).postings@[k];
                    let ooo = old(self).discard_behind_cutoff(old_posting_id);
                    let nf = old(self).append_missing(oldp.ledger_id, inputs@);
                    let unb = Store::append_unbalanced(inputs@, oldp.pst_type);
                    let dup = old(self).has_active_opr(new_opr_id);
                    let ooo2 = old(self).append_behind_cutoff(inputs@, value_time);
                    &&& ooo ==> r == Err::<(u128, u64), LedgerError>(
                        LedgerError::OutOfOrderCheckpointError,
                    )
                    &&& !ooo && nf ==> r == Err::<(u128, u64), LedgerError>(
                        LedgerError::NotFoundError,
                    )
                    &&& !ooo && !nf && unb ==> r == Err::<(u128, u64), LedgerError>(
                        LedgerError::UnbalancedPostingError,
                    )
                    &&& !ooo && !nf && !unb && dup ==> r == Err::<(u128, u64), LedgerError>(
                        LedgerError::DuplicateOperationError,
                    )
                    &&& !ooo && !nf && !unb && !dup && ooo2 ==> r == Err::<(u128, u64), LedgerError>(
                        LedgerError::OutOfOrderCheckpointError,
                    )
                    &&& !ooo && !nf && !unb && !dup && !ooo2 ==> r is Ok
                    &&& r is Ok ==> {
                        let p = final(self).postings@.last();
                        &&& p.ledger_id == oldp.ledger_id
                        &&& p.opr_time == value_time
                        &&& p.pst_type == oldp.pst_type
                        &&& p.pst_status == oldp.pst_status
                    }
                },
            r is Ok ==> {
                let p = final(self).postings@.last();
                &&& old(self).has_active_posting(old_posting_id)
                &&& !old(self).discard_behind_cutoff(old_posting_id)
                &&& final(self).postings@.len() == old(self).postings@.len() + 1
                &&& forall|k: int|
                    0 <= k < old(self).postings@.len() && (
                    #[trigger] old(self).postings@[k]).id != old_posting_id
                        ==> final(self).postings@[k] == old(self).postings@[k]
                &&& forall|k: int|
                    0 <= k < old(self).postings@.len() && (
                    #[trigger] old(self).postings@[k]).id == old_posting_id
                        ==> final(self).postings@[k] == (Posting {
                        discarded_id: Some(p.id),
                        discarded_time: Some(p.record_time),
                        ..old(self).postings@[k]
                    })
                &&& r == Ok::<(u128, u64), LedgerError>((p.id, p.hash))
                &&& p.opr_id == new_opr_id
                &&& p.pst_time == value_time
                &&& p.record_time == old(self).clock
                &&& posting_active(p)
                &&& forall|k: int|
                    0 <= k < old(self).lines@.len() && (#[trigger] old(self).lines@[k]).posting_id
                        != old_posting_id ==> final(self).lines@[k] == old(self).lines@[k]
                &&& forall|k: int|
                    0 <= k < old(self).lines@.len() && (#[trigger] old(self).lines@[k]).posting_id
                        == old_posting_id ==> final(self).lines@[k] == (PostingLine {
                        discarded_time: Some(p.record_time),
                        ..old(self).lines@[k]
                    })
                &&& final(self).lines@.len() == old(self).lines@.len() + inputs@.len()
                &&& forall|e: int|
                    0 <= e < inputs@.len() ==> {
                        let l = #[trigger] final(self).lines@[old(self).lines@.len() + e];
                        &&& l.id == p.id + 1 + e
                        &&& l.posting_id == p.id
                        &&& l.account_id == inputs@[e].account_id
                        &&& l.debit_amount == inputs@[e].debit_amount
                        &&& l.credit_amount == inputs@[e].credit_amount
                        &&& l.base_line == inputs@[e].base_line
                        &&& l.pst_time == value_time
                        &&& l.opr_id == new_opr_id
                        &&& l.record_time == p.record_time
                        &&& l.discarded_time is None
                    }
                &&& final(self).charts@ == old(self).charts@
                &&& final(self).ledgers@ == old(self).ledgers@
                &&& final(self).accounts@ == old(self).accounts@
                &&& final(self).account_stmts@ == old(self).account_stmts@
                &&& final(self).ledger_stmts@ == old(self).ledger_stmts@
                &&& final(self).clock == old(self).clock + 1
                &&& final(self).traces@.len() == old(self).traces@.len() + spec_lines_of_count(
                    old(self).lines@,
                    old_posting_id,
                )
                &&& forall|t: int|
                    0 <= t < old(self).traces@.len() ==> final(self).traces@[t] == old(
                        self,
                    ).traces@[t]
                &&& forall|t: int|
                    old(self).traces@.len() <= t < final(self).traces@.len() ==> {
                        let tr = #[trigger] final(self).traces@[t];
                        &&& tr.tgt_pst_id == p.id
                        &&& tr.src_pst_id == old_posting_id
                        &&& exists|a: int|
                            0 <= a < old(self).lines@.len() && (#[trigger] old(self).lines@[a])
                                .posting_id == old_posting_id && old(self).lines@[a].account_id
                                == tr.account_id && old(self).lines@[a].debit_amount
                                == tr.debit_amount && old(self).lines@[a].credit_amount
                                == tr.credit_amount
                    }
            },
    {
        let oi = match self.find_posting_index(old_posting_id) {
            Some(oi) => oi,
            None => {
                proof {
                    assert forall|k: int|
                        0 <= k < self.postings@.len() && (#[trigger] self.postings@[k]).id
                            == old_posting_id implies !posting_active(self.postings@[k]) by {
                        assert(self.has_posting(old_posting_id));
                    }
                }
                return Err(LedgerError::NotFoundError);
            },
        };
        let old_p = self.postings[oi];
        if old_p.discarded_time.is_some() {
            proof {
                reveal(Store::wf_postings);
                assert forall|k: int|
                    0 <= k < self.postings@.len() && (#[trigger] self.postings@[k]).id
                        == old_posting_id implies !posting_active(self.postings@[k]) by {
                    if k != oi as int {
                        assert(self.postings@[k].id != self.postings@[oi as int].id);
                    }
                }
            }
            return Err(LedgerError::NotFoundError);
        }
        let mut li: usize = 0;
        while li < self.lines.len()
            invariant
                0 <= li <= self.lines@.len(),
                *self == *old(self),
                forall|a: int, b: int|
                    0 <= a < li && 0 <= b < self.account_stmts@.len() ==> !((
                    #[trigger] self.lines@[a]).posting_id == old_posting_id && (
                    #[trigger] self.account_stmts@[b]).stmt_status == StmtStatus::CLOSED
                        && self.account_stmts@[b].account_id == self.lines@[a].account_id
                        && self.account_stmts@[b].pst_time >= self.lines@[a].pst_time),
            decreases self.lines@.len() - li,
        {
            let l = self.lines[li];
            if l.posting_id == old_posting_id {
                let mut si: usize = 0;
                while si < self.account_stmts.len()
                    invariant
                        0 <= si <= self.account_stmts@.len(),
                        *self == *old(self),
                        li < self.lines@.len(),
                        l == self.lines@[li as int],
                        forall|b: int|
                            0 <= b < si ==> !((#[trigger] self.account_stmts@[b]).stmt_status
                                == StmtStatus::CLOSED && self.account_stmts@[b].account_id
                                == l.account_id && self.account_stmts@[b].pst_time >= l.pst_time),
                    decreases self.account_stmts@.len() - si,
                {
                    let st = self.account_stmts[si];
                    if matches!(st.stmt_status, StmtStatus::CLOSED) && st.account_id == l.account_id
                        && st.pst_time >= l.pst_time {
                        return Err(LedgerError::OutOfOrderCheckpointError);
                    }
                    si = si + 1;
                }
            }
            li = li + 1;
        }
        proof {
            assert(!self.discard_behind_cutoff(old_posting_id));
        }
        let head = self.head_index(old_p.ledger_id);
        let observed: Option<u128> = match head {
            Some(hi) => Some(self.postings[hi].id),
            None => None,
        };
        proof {
            match head {
                Some(hi) => {
                    assert(0 <= hi < self.postings@.len() && self.postings@[hi as int].ledger_id
                        == old_p.ledger_id && self.postings@[hi as int].id == observed->Some_0);
                },
                None => {},
            }
            assert(self.head_matches(old_p.ledger_id, observed));
            assert forall|k: int|
                0 <= k < self.postings@.len() && (#[trigger] self.postings@[k]).id
                    == old_posting_id && posting_active(self.postings@[k]) implies k == oi as int by {
                reveal(Store::wf_postings);
                if k < oi as int {
                    assert(self.postings@[k].id < self.postings@[oi as int].id);
                }
                if k > oi as int {
                    assert(self.postings@[oi as int].id < self.postings@[k].id);
                }
            }
        }
        let appended = self.append(
            old_p.ledger_id,
            new_opr_id,
            value_time,
            inputs,
            value_time,
            old_p.pst_type,
            old_p.pst_status,
            observed,
        );
        let (new_pid, new_hash) = match appended {
            Ok(v) => v,
            Err(e) => {
                return Err(e);
            },
        };
        let ghost mid = *self;
        let t_disc = self.clock - 1;
        let mut q = self.postings[oi];
        q.discarded_id = Some(new_pid);
        q.discarded_time = Some(t_disc);
        self.postings[oi] = q;
        proof {
            assert(self.wf_counter());
        }
        self.counter_headroom();
        let ghost mid2 = *self;
        let mut li: usize = 0;
        while li < self.lines.len()
            invariant
                0 <= li <= self.lines@.len(),
                self.lines@.len() == mid2.lines@.len(),
                forall|a: int|
                    0 <= a < self.lines@.len() && !(a < li && (
                    #[trigger] mid2.lines@[a]).posting_id == old_posting_id) ==> self.lines@[a]
                        == mid2.lines@[a],
                forall|a: int|
                    0 <= a < li && (#[trigger] mid2.lines@[a]).posting_id == old_posting_id ==> {
                        let w = self.lines@[a];
                        &&& w == (PostingLine { discarded_time: Some(t_disc), ..mid2.lines@[a] })
                    },
                self.postings@ == mid2.postings@,
                self.charts@ == mid2.charts@,
                self.ledgers@ == mid2.ledgers@,
                self.accounts@ == mid2.accounts@,
                self.account_stmts@ == mid2.account_stmts@,
                self.ledger_stmts@ == mid2.ledger_stmts@,
                self.traces@.len() == mid2.traces@.len() + spec_lines_of_count(
                    mid2.lines@.take(li as int),
                    old_posting_id,
                ),
                self.traces@.len() >= mid2.traces@.len(),
                self.traces@.len() - mid2.traces@.len() <= li,
                forall|t: int| 0 <= t < mid2.traces@.len() ==> self.traces@[t] == mid2.traces@[t],
                forall|t: int|
                    mid2.traces@.len() <= t < self.traces@.len() ==> {
                        let tr = #[trigger] self.traces@[t];
                        &&& tr.id == mid2.next_id + (t - mid2.traces@.len())
                        &&& tr.tgt_pst_id == new_pid
                        &&& tr.src_pst_id == old_posting_id
                        &&& exists|a: int|
                            0 <= a < mid2.lines@.len() && (#[trigger] mid2.lines@[a]).posting_id
                                == old_posting_id && mid2.lines@[a].account_id == tr.account_id
                                && mid2.lines@[a].debit_amount == tr.debit_amount
                                && mid2.lines@[a].credit_amount == tr.credit_amount
                    },
                self.next_id == mid2.next_id + (self.traces@.len() - mid2.traces@.len()),
                mid2.next_id as int + usize::MAX as int + 1 < u128::MAX as int,
                self.clock == mid2.clock,
            decreases self.lines@.len() - li,
        {
            let ghost tr0 = self.traces@;
            if self.lines[li].posting_id == old_posting_id {
                let mut w = self.lines[li];
                w.discarded_time = Some(t_disc);
                self.lines[li] = w;
                let tid = self.next_id;
                let tr = PostingTrace {
                    id: tid,
                    tgt_pst_id: new_pid,
                    src_pst_id: old_posting_id,
                    src_pst_time: old_p.pst_time,
                    src_opr_id: old_p.opr_id,
                    account_id: w.account_id,
                    debit_amount: w.debit_amount,
                    credit_amount: w.credit_amount,
                    src_pst_hash: old_p.hash,
                };
                self.traces.push(tr);
                self.next_id = tid + 1;
                proof {
                    assert(self.traces@ == tr0.push(tr));
                    assert forall|t: int| 0 <= t < mid2.traces@.len() implies self.traces@[t]
                        == mid2.traces@[t] by {
                        assert(self.traces@[t] == tr0[t]);
                    }
                    assert forall|t: int|
                        mid2.traces@.len() <= t < self.traces@.len() implies {
                        let tt = #[trigger] self.traces@[t];
                        &&& tt.id == mid2.next_id + (t - mid2.traces@.len())
                        &&& tt.tgt_pst_id == new_pid
                        &&& tt.src_pst_id == old_posting_id
                        &&& exists|a: int|
                            0 <= a < mid2.lines@.len() && (#[trigger] mid2.lines@[a]).posting_id
                                == old_posting_id && mid2.lines@[a].account_id == tt.account_id
                                && mid2.lines@[a].debit_amount == tt.debit_amount
                                && mid2.lines@[a].credit_amount == tt.credit_amount
                    } by {
                        if t < tr0.len() {
                            assert(self.traces@[t] == tr0[t]);
                        } else {
                            assert(self.traces@[t] == tr);
                            assert(0 <= li < mid2.lines@.len() && mid2.lines@[li as int].posting_id
                                == old_posting_id && mid2.lines@[li as int].account_id
                                == tr.account_id && mid2.lines@[li as int].debit_amount
                                == tr.debit_amount && mid2.lines@[li as int].credit_amount
                                == tr.credit_amount);
                        }
                    }
                }
            }
            li = li + 1;
            proof {
                assert(mid2.lines@.take(li as int).drop_last() =~= mid2.lines@.take(li - 1));
                assert(mid2.lines@.take(li as int).last() == mid2.lines@[li - 1]);
            }
        }
        proof {
            assert(mid2.lines@.take(mid2.lines@.len() as int) =~= mid2.lines@);
        }
        proof {
            let pre0 = *old(self);
            let pre = mid;
            let post = *self;
            assert(old_posting_id < pre0.next_id) by {
                reveal(Store::wf_postings);
            }
            assert(pre.postings@[oi as int] == pre0.postings@[oi as int]);
            assert(!pre.discard_behind_cutoff(old_posting_id)) by {
                assert forall|li2: int, si2: int|
                    0 <= li2 < pre.lines@.len() && 0 <= si2 < pre.account_stmts@.len() implies !((
                    #[trigger] pre.lines@[li2]).posting_id == old_posting_id && (
                    #[trigger] pre.account_stmts@[si2]).stmt_status == StmtStatus::CLOSED
                    && pre.account_stmts@[si2].account_id == pre.lines@[li2].account_id
                    && pre.account_stmts@[si2].pst_time >= pre.lines@[li2].pst_time) by {
                    if li2 < pre0.lines@.len() {
                        assert(pre.lines@[li2] == pre0.lines@[li2]);
                        assert(pre.account_stmts@[si2] == pre0.account_stmts@[si2]);
                    } else {
                        let e = li2 - pre0.lines@.len();
                        assert(pre.lines@[pre0.lines@.len() + e].posting_id == pre0.next_id);
                    }
                }
            }
            lemma_count_bounds(mid2.lines@, old_posting_id);
            lemma_discard_marks_wf(pre, post, oi as int, old_posting_id, new_pid, t_disc);
            let ext = pre.lines@.skip(pre0.lines@.len() as int);
            assert(pre.lines@ =~= pre0.lines@ + ext);
            assert forall|e: int| 0 <= e < ext.len() implies (#[trigger] ext[e]).posting_id
                == pre0.next_id by {
                assert(ext[e] == pre.lines@[pre0.lines@.len() + e]);
            }
            lemma_count_absent(ext, old_posting_id);
            lemma_count_append(pre0.lines@, ext, old_posting_id);
            assert(post.traces@.len() == pre0.traces@.len() + spec_lines_of_count(
                pre0.lines@,
                old_posting_id,
            ));
            assert(post.postings@.last().id == new_pid);
            assert forall|t: int| 0 <= t < pre0.traces@.len() implies post.traces@[t]
                == pre0.traces@[t] by {
                assert(post.traces@[t] == mid2.traces@[t]);
                assert(mid2.traces@ == pre0.traces@);
            }
            assert forall|t: int|
                pre0.traces@.len() <= t < post.traces@.len() implies {
                let tr = #[trigger] post.traces@[t];
                &&& tr.tgt_pst_id == post.postings@.last().id
                &&& tr.src_pst_id == old_posting_id
                &&& exists|a: int|
                    0 <= a < pre0.lines@.len() && (#[trigger] pre0.lines@[a]).posting_id
                        == old_posting_id && pre0.lines@[a].account_id == tr.account_id
                        && pre0.lines@[a].debit_amount == tr.debit_amount
                        && pre0.lines@[a].credit_amount == tr.credit_amount
            } by {
                let tr = post.traces@[t];
                let a = choose|a: int|
                    0 <= a < mid2.lines@.len() && (#[trigger] mid2.lines@[a]).posting_id
                        == old_posting_id && mid2.lines@[a].account_id == tr.account_id
                        && mid2.lines@[a].debit_amount == tr.debit_amount
                        && mid2.lines@[a].credit_amount == tr.credit_amount;
                if a >= pre0.lines@.len() {
                    assert(mid2.lines@[a] == pre.lines@[a]);
                    assert(ext[a - pre0.lines@.len()] == pre.lines@[a]);
                    assert(false);
                } else {
                    assert(pre0.lines@[a] == mid2.lines@[a]);
                }
            }
            assert(pre0.has_active_posting(old_posting_id)) by {
                assert(0 <= oi < pre0.postings@.len() && pre0.postings@[oi as int].id
                    == old_posting_id && posting_active(pre0.postings@[oi as int]));
            }
            assert forall|k: int|
                0 <= k < pre0.postings@.len() && (#[trigger] pre0.postings@[k]).id
                    != old_posting_id implies post.postings@[k] == pre0.postings@[k] by {
                assert(pre.postings@[k] == pre0.postings@[k]);
            }
            assert forall|k: int|
                0 <= k < pre0.postings@.len() && (#[trigger] pre0.postings@[k]).id
                    == old_posting_id implies k == oi as int by {
                reveal(Store::wf_postings);
                if k < oi as int {
                    assert(pre0.postings@[k].id < pre0.postings@[oi as int].id);
                }
                if k > oi as int {
                    assert(pre0.postings@[oi as int].id < pre0.postings@[k].id);
                }
            }
            let p = post.postings@.last();
            assert(p == pre.postings@.last());
            assert(p.record_time == t_disc);
            assert(post.postings@[oi as int] == (Posting {
                discarded_id: Some(p.id),
                discarded_time: Some(p.record_time),
                ..pre0.postings@[oi as int]
            }));
            assert forall|k: int|
                0 <= k < pre0.lines@.len() && (#[trigger] pre0.lines@[k]).posting_id
                    != old_posting_id implies post.lines@[k] == pre0.lines@[k] by {
                assert(mid2.lines@[k] == pre.lines@[k]);
                assert(pre.lines@[k] == pre0.lines@[k]);
            }
            assert forall|k: int|
                0 <= k < pre0.lines@.len() && (#[trigger] pre0.lines@[k]).posting_id
                    == old_posting_id implies post.lines@[k] == (PostingLine {
                discarded_time: Some(p.record_time),
                ..pre0.lines@[k]
            }) by {
                assert(mid2.lines@[k] == pre.lines@[k]);
                assert(pre.lines@[k] == pre0.lines@[k]);
                assert(post.lines@[k] == (PostingLine {
                    discarded_time: Some(t_disc),
                    ..mid2.lines@[k]
                }));
            }
            assert forall|e: int|
                0 <= e < inputs@.len() implies {
                let l = #[trigger] post.lines@[pre0.lines@.len() + e];
                &&& l.id == p.id + 1 + e
                &&& l.posting_id == p.id
                &&& l.account_id == inputs@[e].account_id
                &&& l.debit_amount == inputs@[e].debit_amount
                &&& l.credit_amount == inputs@[e].credit_amount
                &&& l.base_line == inputs@[e].base_line
                &&& l.pst_time == value_time
                &&& l.opr_id == new_opr_id
                &&& l.record_time == p.record_time
                &&& l.discarded_time is None
            } by {
                let a = pre0.lines@.len() + e;
                assert(pre.lines@[a].posting_id == pre0.next_id);
                assert(mid2.lines@[a] == pre.lines@[a]);
                assert(post.lines@[a] == mid2.lines@[a]);
            }
            assert(post.charts@ == pre0.charts@);
            assert(post.ledgers@ == pre0.ledgers@);
            assert(post.accounts@ == pre0.accounts@);
            assert(post.account_stmts@ == pre0.account_stmts@);
            assert(post.ledger_stmts@ == pre0.ledger_stmts@);
            assert(post.clock == pre0.clock + 1);
        }
        Ok((new_pid, new_hash))
    }
}

/// Setting the discard marker on one active posting and exactly its
/// lines — at a record time no earlier than every closed cutoff each
/// line could count toward — preserves the store invariant.
#[verifier::rlimit(100)]
proof fn lemma_discard_marks_wf(
    pre: Store,
    post: Store,
    oi: int,
    old_posting_id: u128,
    new_pid: u128,
    t_disc: u128,
)
    requires
        pre.wf(),
        0 <= oi < pre.postings@.len(),
        pre.postings@[oi].id == old_posting_id,
        posting_active(pre.postings@[oi]),
        !pre.discard_behind_cutoff(old_posting_id),
        post.postings@.len() == pre.postings@.len(),
        forall|k: int| 0 <= k < pre.postings@.len() && k != oi ==> post.postings@[k]
            == pre.postings@[k],
        post.postings@[oi] == (Posting {
            discarded_id: Some(new_pid),
            discarded_time: Some(t_disc),
            ..pre.postings@[oi]
        }),
        post.lines@.len() == pre.lines@.len(),
        forall|a: int|
            0 <= a < pre.lines@.len() && (#[trigger] pre.lines@[a]).posting_id != old_posting_id
                ==> post.lines@[a] == pre.lines@[a],
        forall|a: int|
            0 <= a < pre.lines@.len() && (#[trigger] pre.lines@[a]).posting_id == old_posting_id
                ==> post.lines@[a] == (PostingLine {
                discarded_time: Some(t_disc),
                ..pre.lines@[a]
            }),
        post.charts@ == pre.charts@,
        post.ledgers@ == pre.ledgers@,
        post.accounts@ == pre.accounts@,
        post.account_stmts@ == pre.account_stmts@,
        post.ledger_stmts@ == pre.ledger_stmts@,
        post.traces@.len() >= pre.traces@.len(),
        forall|t: int| 0 <= t < pre.traces@.len() ==> post.traces@[t] == pre.traces@[t],
        forall|t: int|
            pre.traces@.len() <= t < post.traces@.len() ==> (#[trigger] post.traces@[t]).id
                == pre.next_id + (t - pre.traces@.len()),
        post.next_id == pre.next_id + (post.traces@.len() - pre.traces@.len()),
        post.clock == pre.clock,
    ensures
        post.wf(),
{
    assert(post.wf_postings()) by {
        reveal(Store::wf_postings);
        assert forall|i: int, j: int|
            0 <= i < j < post.postings@.len() && (#[trigger] post.postings@[i]).opr_id == (
            #[trigger] post.postings@[j]).opr_id implies !(posting_active(post.postings@[i])
            && posting_active(post.postings@[j])) by {
            assert(pre.postings@[i].opr_id == post.postings@[i].opr_id);
            assert(posting_active(post.postings@[i]) ==> posting_active(pre.postings@[i]));
            assert(posting_active(post.postings@[j]) ==> posting_active(pre.postings@[j]));
        }
    }
    assert(post.wf_lines()) by {
        reveal(Store::wf_lines);
        reveal(Store::wf_postings);
        assert forall|a: int| 0 <= a < post.lines@.len() implies {
            let w = #[trigger] post.lines@[a];
            let v = pre.lines@[a];
            &&& w.id == v.id
            &&& w.posting_id == v.posting_id
            &&& w.account_id == v.account_id
            &&& w.debit_amount == v.debit_amount
            &&& w.credit_amount == v.credit_amount
            &&& w.pst_time == v.pst_time
            &&& w.pst_type == v.pst_type
            &&& w.opr_id == v.opr_id
            &&& w.hash == v.hash
            &&& crate::hash::spec_line_hash(w) == crate::hash::spec_line_hash(v)
        } by {
            if pre.lines@[a].posting_id == old_posting_id {
                assert(post.lines@[a] == (PostingLine {
                    discarded_time: Some(t_disc),
                    ..pre.lines@[a]
                }));
            } else {
                assert(post.lines@[a] == pre.lines@[a]);
            }
        }
        assert forall|a: int, pj: int|
            0 <= a < post.lines@.len() && 0 <= pj < post.postings@.len() && (
            #[trigger] post.postings@[pj]).id == (#[trigger] post.lines@[a]).posting_id
            implies post.lines@[a].discarded_time == post.postings@[pj].discarded_time by {
            if pre.lines@[a].posting_id == old_posting_id {
                if pj != oi {
                    assert(post.postings@[pj] == pre.postings@[pj]);
                    assert(pre.postings@[pj].id != pre.postings@[oi].id);
                    assert(false);
                }
            } else {
                assert(post.lines@[a] == pre.lines@[a]);
                if pj == oi {
                    assert(pre.postings@[oi].id == old_posting_id);
                    assert(false);
                } else {
                    assert(post.postings@[pj] == pre.postings@[pj]);
                }
            }
        }
    }
    assert(post.wf_balanced()) by {
        reveal(Store::wf_balanced);
        assert forall|j: int| 0 <= j < post.postings@.len() implies crate::sums::posting_debit_total(
            post.lines@,
            (#[trigger] post.postings@[j]).id,
        ) == crate::sums::posting_credit_total(post.lines@, post.postings@[j].id) by {
            lemma_posting_total_pointwise(pre.lines@, post.lines@, post.postings@[j].id);
            assert(post.postings@[j].id == pre.postings@[j].id);
        }
    }
    assert(chain_ok(post.postings@, post.lines@)) by {
        reveal(crate::chain::chain_ok);
        assert forall|j: int| 0 <= j < post.postings@.len() implies crate::chain::hash_ok(
            #[trigger] post.postings@[j],
            post.lines@,
        ) by {
            lemma_line_hashes_pointwise(pre.lines@, post.lines@, post.postings@[j].id);
            assert(crate::chain::hash_ok(pre.postings@[j], pre.lines@));
            assert(post.postings@[j].id == pre.postings@[j].id);
            assert(post.postings@[j].hash == pre.postings@[j].hash);
            assert(crate::hash::spec_posting_hash(
                post.postings@[j],
                line_hashes_of(post.lines@, post.postings@[j].id),
            ) == crate::hash::spec_posting_hash(
                pre.postings@[j],
                line_hashes_of(pre.lines@, pre.postings@[j].id),
            ));
        }
        assert forall|i: int, j: int| crate::chain::pred_in_ledger(post.postings@, i, j)
            implies crate::chain::links_to(
            #[trigger] post.postings@[i],
            #[trigger] post.postings@[j],
        ) by {
            assert(forall|k: int|
                0 <= k < pre.postings@.len() ==> (#[trigger] post.postings@[k]).ledger_id
                    == pre.postings@[k].ledger_id);
            assert(crate::chain::pred_in_ledger(pre.postings@, i, j));
            assert(post.postings@[i].id == pre.postings@[i].id && post.postings@[i].hash
                == pre.postings@[i].hash);
            assert(post.postings@[j].antecedent_id == pre.postings@[j].antecedent_id
                && post.postings@[j].antecedent_hash == pre.postings@[j].antecedent_hash);
        }
        assert forall|j: int| crate::chain::first_in_ledger(post.postings@, j)
            implies crate::chain::is_genesis(#[trigger] post.postings@[j]) by {
            assert(forall|k: int|
                0 <= k < pre.postings@.len() ==> (#[trigger] post.postings@[k]).ledger_id
                    == pre.postings@[k].ledger_id);
            assert(crate::chain::first_in_ledger(pre.postings@, j));
        }
    }
    assert(post.wf_account_stmts()) by {
        reveal(Store::wf_account_stmts);
        assert forall|s: int|
            0 <= s < post.account_stmts@.len() && (#[trigger] post.account_stmts@[s]).stmt_status
                == StmtStatus::CLOSED implies {
            &&& post.account_stmts@[s].total_debit == debit_sum(
                post.lines@,
                post.account_stmts@[s].account_id,
                genesis_lo(),
                post.account_stmts@[s].pst_time as int,
            )
            &&& post.account_stmts@[s].total_credit == credit_sum(
                post.lines@,
                post.account_stmts@[s].account_id,
                genesis_lo(),
                post.account_stmts@[s].pst_time as int,
            )
        } by {
            let st = post.account_stmts@[s];
            assert forall|a: int| 0 <= a < pre.lines@.len() implies (line_in_scope(
                #[trigger] pre.lines@[a],
                st.account_id,
                genesis_lo(),
                st.pst_time as int,
            ) == line_in_scope(post.lines@[a], st.account_id, genesis_lo(), st.pst_time as int) && (
            line_in_scope(pre.lines@[a], st.account_id, genesis_lo(), st.pst_time as int)
                ==> pre.lines@[a].debit_amount == post.lines@[a].debit_amount
                && pre.lines@[a].credit_amount == post.lines@[a].credit_amount)) by {
                if pre.lines@[a].posting_id == old_posting_id {
                    if pre.lines@[a].account_id == st.account_id {
                        assert(!(st.stmt_status == StmtStatus::CLOSED && st.account_id
                            == pre.lines@[a].account_id && st.pst_time >= pre.lines@[a].pst_time));
                        assert(pre.lines@[a].pst_time as int > st.pst_time as int);
                        assert(!line_in_scope(
                            pre.lines@[a],
                            st.account_id,
                            genesis_lo(),
                            st.pst_time as int,
                        ));
                        assert(!line_in_scope(
                            post.lines@[a],
                            st.account_id,
                            genesis_lo(),
                            st.pst_time as int,
                        ));
                    }
                }
            }
            lemma_sum_pointwise(
                pre.lines@,
                post.lines@,
                st.account_id,
                genesis_lo(),
                st.pst_time as int,
            );
        }
    }
    assert(post.wf_charts()) by {
        reveal(Store::wf_charts);
    }
    assert(post.wf_ledgers()) by {
        reveal(Store::wf_ledgers);
    }
    assert(post.wf_accounts()) by {
        reveal(Store::wf_accounts);
    }
    assert(post.wf_ledger_stmts()) by {
        reveal(Store::wf_ledger_stmts);
    }
    assert(post.wf_traces()) by {
        reveal(Store::wf_traces);
        let nn = pre.traces@.len() as int;
        assert forall|i: int, j: int| 0 <= i < j < post.traces@.len() implies (
        #[trigger] post.traces@[i]).id < (#[trigger] post.traces@[j]).id by {
            if j < nn {
            } else if i < nn {
                assert(post.traces@[i] == pre.traces@[i]);
                assert(pre.traces@[i].id < pre.next_id);
            }
        }
        assert forall|i: int| 0 <= i < post.traces@.len() implies (#[trigger] post.traces@[i]).id
            < post.next_id by {
            if i < nn {
                assert(post.traces@[i] == pre.traces@[i]);
                assert(pre.traces@[i].id < pre.next_id);
            }
        }
    }
    assert(post.wf_postings()) by {
        reveal(Store::wf_postings);
    }
    assert(post.wf_lines()) by {
        reveal(Store::wf_lines);
    }
}

} // verus!
