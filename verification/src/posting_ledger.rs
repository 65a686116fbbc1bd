//! Appending balanced postings to a ledger's hash-chained log.

use vstd::prelude::*;

use crate::chain::{
    chain_ok, first_in_ledger, hash_ok, is_genesis, lemma_line_hashes_absent,
    lemma_line_hashes_all_own, lemma_line_hashes_append, line_hashes_of, links_to, pred_in_ledger,
};
use crate::enums::{PostingStatus, PostingType, StmtStatus};
use crate::errors::LedgerError;
use crate::hash::{line_hash, posting_hash, spec_digest, spec_line_hash, spec_line_words, spec_posting_hash};
use crate::records::{LineInput, Posting, PostingLine};
use crate::store::{posting_active, spec_is_stmt_type, Store};
use crate::sums::{
    credit_sum, debit_sum, genesis_lo, input_credit_total, input_debit_total, lemma_built_totals,
    lemma_posting_total_absent, lemma_posting_total_append, lemma_sum_append,
    lemma_sum_zero_out_of_scope, line_in_scope, posting_credit_total, posting_debit_total,
};

verus! {

/// A single line input is well shaped: at most one side non-zero, and
/// both sides zero only within a statement posting.
pub open spec fn input_shape_ok(l: LineInput, pst_type: PostingType) -> bool {
    &&& (l.debit_amount == 0 || l.credit_amount == 0)
    &&& (l.debit_amount == 0 && l.credit_amount == 0 ==> spec_is_stmt_type(pst_type))
}


/// The structural relation between a store and its successor after one
/// append: one posting pushed, one line per input appended with mirrored
/// bookkeeping fields, counters advanced.
pub open spec fn append_post_shape(
    pre: Store,
    post: Store,
    p: Posting,
    inputs: Seq<LineInput>,
    hashes: Seq<u64>,
) -> bool {
    let nn = pre.lines@.len() as int;
    &&& post.postings@ == pre.postings@.push(p)
    &&& p.id == pre.next_id
    &&& p.record_time == pre.clock
    &&& p.discarded_id is None
    &&& p.discarded_time is None
    &&& p.hash == spec_posting_hash(p, hashes)
    &&& hashes.len() == inputs.len()
    &&& post.lines@.len() == nn + inputs.len()
    &&& forall|t: int| 0 <= t < nn ==> post.lines@[t] == pre.lines@[t]
    &&& forall|e: int|
        0 <= e < inputs.len() ==> {
            let l = #[trigger] post.lines@[nn + e];
            &&& l.id == p.id + 1 + e
            &&& l.posting_id == p.id
            &&& l.account_id == inputs[e].account_id
            &&& l.debit_amount == inputs[e].debit_amount
            &&& l.credit_amount == inputs[e].credit_amount
            &&& l.record_time == p.record_time
            &&& l.opr_id == p.opr_id
            &&& l.pst_time == p.pst_time
            &&& l.pst_type == p.pst_type
            &&& (l.debit_amount == 0 || l.credit_amount == 0)
            &&& (l.debit_amount == 0 && l.credit_amount == 0 ==> spec_is_stmt_type(l.pst_type))
            &&& l.hash == spec_line_hash(l)
            &&& l.hash == hashes[e]
            &&& l.discarded_time is None
        }
    &&& post.next_id == pre.next_id + 1 + inputs.len()
    &&& post.clock == pre.clock + 1
    &&& post.charts@ == pre.charts@
    &&& post.ledgers@ == pre.ledgers@
    &&& post.accounts@ == pre.accounts@
    &&& post.account_stmts@ == pre.account_stmts@
    &&& post.ledger_stmts@ == pre.ledger_stmts@
    &&& post.traces@ == pre.traces@
}

/// One append preserves the posting, line and balance invariants.
#[verifier::rlimit(100)]
pub proof fn lemma_append_postings_lines(
    pre: Store,
    post: Store,
    p: Posting,
    inputs: Seq<LineInput>,
    hashes: Seq<u64>,
)
    requires
        pre.wf(),
        append_post_shape(pre, post, p, inputs, hashes),
        !pre.has_active_opr(p.opr_id),
        input_debit_total(inputs) == input_credit_total(inputs),
    ensures
        post.wf_postings(),
        post.wf_lines(),
        post.wf_balanced(),
{
    let nn = pre.lines@.len() as int;
    let ext = post.lines@.skip(nn);
    assert(post.lines@ =~= pre.lines@ + ext);
    assert(forall|e: int| 0 <= e < ext.len() ==> #[trigger] ext[e] == post.lines@[nn + e]);
    let last = post.postings@.len() - 1;
    let pid = p.id;
    assert(post.wf_postings()) by {
        reveal(Store::wf_postings);
        assert forall|i: int, j: int| 0 <= i < j < post.postings@.len() implies (
        #[trigger] post.postings@[i]).id < (#[trigger] post.postings@[j]).id by {
            if j == last {
                assert(post.postings@[i] == pre.postings@[i]);
                assert(pre.postings@[i].id < pre.next_id);
            }
        }
        assert forall|i: int, j: int|
            0 <= i < j < post.postings@.len() && (#[trigger] post.postings@[i]).opr_id == (
            #[trigger] post.postings@[j]).opr_id implies !(posting_active(post.postings@[i])
            && posting_active(post.postings@[j])) by {
            if j == last {
                assert(post.postings@[i] == pre.postings@[i]);
                assert(!(pre.postings@[i].opr_id == p.opr_id && posting_active(pre.postings@[i])));
            }
        }
    }
    assert(post.wf_lines()) by {
        reveal(Store::wf_lines);
        reveal(Store::wf_postings);
        assert forall|i: int, j: int| 0 <= i < j < post.lines@.len() implies (
        #[trigger] post.lines@[i]).id < (#[trigger] post.lines@[j]).id by {
            if j >= nn {
                if i < nn {
                    assert(post.lines@[i] == pre.lines@[i]);
                    assert(pre.lines@[i].id < pre.next_id);
                }
            }
        }
        assert forall|li: int, pj: int|
            0 <= li < post.lines@.len() && 0 <= pj < post.postings@.len() && (
            #[trigger] post.postings@[pj]).id == (#[trigger] post.lines@[li]).posting_id
            implies post.lines@[li].discarded_time == post.postings@[pj].discarded_time by {
            if li < nn {
                assert(post.lines@[li] == pre.lines@[li]);
                if pj == last {
                    assert(pre.lines@[li].posting_id < pre.next_id);
                    assert(false);
                } else {
                    assert(post.postings@[pj] == pre.postings@[pj]);
                }
            } else {
                assert(post.lines@[li].posting_id == pid);
                if pj != last {
                    assert(post.postings@[pj] == pre.postings@[pj]);
                    assert(pre.postings@[pj].id < pre.next_id);
                    assert(false);
                }
            }
        }
    }
    assert(post.wf_balanced()) by {
        reveal(Store::wf_balanced);
        lemma_built_totals(ext, inputs, pid);
        assert forall|j: int| 0 <= j < post.postings@.len() implies posting_debit_total(
            post.lines@,
            (#[trigger] post.postings@[j]).id,
        ) == posting_credit_total(post.lines@, post.postings@[j].id) by {
            lemma_posting_total_append(pre.lines@, ext, post.postings@[j].id);
            if j == last {
                assert forall|e: int| 0 <= e < pre.lines@.len() implies (
                #[trigger] pre.lines@[e]).posting_id != pid by {
                    reveal(Store::wf_lines);
                    assert(pre.lines@[e].posting_id < pre.next_id);
                }
                lemma_posting_total_absent(pre.lines@, pid);
            } else {
                assert(post.postings@[j] == pre.postings@[j]);
                assert forall|e: int| 0 <= e < ext.len() implies (#[trigger] ext[e]).posting_id
                    != post.postings@[j].id by {
                    reveal(Store::wf_postings);
                    assert(pre.postings@[j].id < pre.next_id);
                }
                lemma_posting_total_absent(ext, post.postings@[j].id);
                reveal(Store::wf_balanced);
            }
        }
    }
}

/// After one append every stored posting hash still recomputes from its
/// content and lines.
#[verifier::rlimit(100)]
pub proof fn lemma_append_hash_ok(
    pre: Store,
    post: Store,
    p: Posting,
    inputs: Seq<LineInput>,
    hashes: Seq<u64>,
)
    requires
        pre.wf(),
        append_post_shape(pre, post, p, inputs, hashes),
    ensures
        forall|j: int|
            0 <= j < post.postings@.len() ==> hash_ok(#[trigger] post.postings@[j], post.lines@),
{
    let nn = pre.lines@.len() as int;
    let ext = post.lines@.skip(nn);
    assert(post.lines@ =~= pre.lines@ + ext);
    assert(forall|e: int| 0 <= e < ext.len() ==> #[trigger] ext[e] == post.lines@[nn + e]);
    let last = post.postings@.len() - 1;
    let pid = p.id;
    reveal(crate::chain::chain_ok);
    assert forall|e: int| 0 <= e < pre.lines@.len() implies (#[trigger] pre.lines@[e]).posting_id
        != pid by {
        reveal(Store::wf_lines);
        assert(pre.lines@[e].posting_id < pre.next_id);
    }
    lemma_line_hashes_absent(pre.lines@, pid);
    lemma_line_hashes_append(pre.lines@, ext, pid);
    lemma_line_hashes_all_own(ext, pid);
    assert(line_hashes_of(pre.lines@, pid) + line_hashes_of(ext, pid) =~= line_hashes_of(ext, pid));
    assert(line_hashes_of(post.lines@, pid) == line_hashes_of(ext, pid));
    assert(line_hashes_of(ext, pid).len() == ext.len());
    assert forall|e: int| 0 <= e < ext.len() implies line_hashes_of(ext, pid)[e] == hashes[e] by {
        assert(ext[e] == post.lines@[nn + e]);
        assert(line_hashes_of(ext, pid)[e] == spec_line_hash(ext[e]));
    }
    assert(line_hashes_of(ext, pid) =~= hashes);
    assert(hash_ok(p, post.lines@));
    assert forall|j: int| 0 <= j < post.postings@.len() implies hash_ok(
        #[trigger] post.postings@[j],
        post.lines@,
    ) by {
        if j < last {
            assert(post.postings@[j] == pre.postings@[j]);
            assert(hash_ok(pre.postings@[j], pre.lines@));
            assert forall|e: int| 0 <= e < ext.len() implies (#[trigger] ext[e]).posting_id
                != pre.postings@[j].id by {
                reveal(Store::wf_postings);
                assert(pre.postings@[j].id < pre.next_id);
            }
            lemma_line_hashes_absent(ext, pre.postings@[j].id);
            lemma_line_hashes_append(pre.lines@, ext, pre.postings@[j].id);
            assert(line_hashes_of(pre.lines@, pre.postings@[j].id) + line_hashes_of(
                ext,
                pre.postings@[j].id,
            ) =~= line_hashes_of(pre.lines@, pre.postings@[j].id));
            assert(line_hashes_of(post.lines@, pre.postings@[j].id) == line_hashes_of(
                pre.lines@,
                pre.postings@[j].id,
            ));
        }
    }
}

/// One append extends the ledger's hash chain intact.
#[verifier::rlimit(100)]
pub proof fn lemma_append_chain(
    pre: Store,
    post: Store,
    p: Posting,
    inputs: Seq<LineInput>,
    hashes: Seq<u64>,
    head_idx: Option<int>,
)
    requires
        pre.wf(),
        append_post_shape(pre, post, p, inputs, hashes),
        match head_idx {
            Option::Some(h) => {
                &&& 0 <= h < pre.postings@.len()
                &&& pre.postings@[h].ledger_id == p.ledger_id
                &&& forall|t: int|
                    h < t < pre.postings@.len() ==> (#[trigger] pre.postings@[t]).ledger_id
                        != p.ledger_id
                &&& p.antecedent_id == Some(pre.postings@[h].id)
                &&& p.antecedent_hash == Some(pre.postings@[h].hash)
            },
            Option::None => {
                &&& forall|t: int|
                    0 <= t < pre.postings@.len() ==> (#[trigger] pre.postings@[t]).ledger_id
                        != p.ledger_id
                &&& p.antecedent_id is None
                &&& p.antecedent_hash is None
            },
        },
    ensures
        chain_ok(post.postings@, post.lines@),
{
    lemma_append_hash_ok(pre, post, p, inputs, hashes);
    proof_chain_clauses(pre, post, p, head_idx);
}

/// The link and genesis clauses of `chain_ok` after one append.
#[verifier::rlimit(100)]
proof fn proof_chain_clauses(pre: Store, post: Store, p: Posting, head_idx: Option<int>)
    requires
        chain_ok(pre.postings@, pre.lines@),
        post.postings@ == pre.postings@.push(p),
        post.lines@.len() >= pre.lines@.len(),
        forall|j: int|
            0 <= j < post.postings@.len() ==> hash_ok(#[trigger] post.postings@[j], post.lines@),
        match head_idx {
            Option::Some(h) => {
                &&& 0 <= h < pre.postings@.len()
                &&& pre.postings@[h].ledger_id == p.ledger_id
                &&& forall|t: int|
                    h < t < pre.postings@.len() ==> (#[trigger] pre.postings@[t]).ledger_id
                        != p.ledger_id
                &&& p.antecedent_id == Some(pre.postings@[h].id)
                &&& p.antecedent_hash == Some(pre.postings@[h].hash)
            },
            Option::None => {
                &&& forall|t: int|
                    0 <= t < pre.postings@.len() ==> (#[trigger] pre.postings@[t]).ledger_id
                        != p.ledger_id
                &&& p.antecedent_id is None
                &&& p.antecedent_hash is None
            },
        },
    ensures
        chain_ok(post.postings@, post.lines@),
{
    reveal(crate::chain::chain_ok);
    crate::chain::lemma_push_links(pre.postings@, p, head_idx);
}

/// One append leaves every closed statement's totals untouched, because
/// every new line lands strictly after each closed cutoff of its account.
#[verifier::rlimit(100)]
pub proof fn lemma_append_stmts(
    pre: Store,
    post: Store,
    p: Posting,
    inputs: Seq<LineInput>,
    hashes: Seq<u64>,
)
    requires
        pre.wf(),
        append_post_shape(pre, post, p, inputs, hashes),
        !pre.append_behind_cutoff(inputs, p.pst_time),
    ensures
        post.wf_account_stmts(),
{
    let nn = pre.lines@.len() as int;
    let ext = post.lines@.skip(nn);
    assert(post.lines@ =~= pre.lines@ + ext);
    assert(forall|e: int| 0 <= e < ext.len() ==> #[trigger] ext[e] == post.lines@[nn + e]);
    reveal(Store::wf_account_stmts);
    assert forall|s: int|
        0 <= s < post.account_stmts@.len() && (#[trigger] post.account_stmts@[s]).stmt_status
            == StmtStatus::CLOSED implies {
        &&& post.account_stmts@[s].total_debit == debit_sum(
            post.lines@,
            post.account_stmts@[s].account_id,
            genesis_lo(),
            post.account_stmts@[s].pst_time as int,
        )
        &&& post.account_stmts@[s].total_credit == credit_sum(
            post.lines@,
            post.account_stmts@[s].account_id,
            genesis_lo(),
            post.account_stmts@[s].pst_time as int,
        )
    } by {
        let st = post.account_stmts@[s];
        lemma_sum_append(pre.lines@, ext, st.account_id, genesis_lo(), st.pst_time as int);
        assert forall|e: int| 0 <= e < ext.len() implies !line_in_scope(
            #[trigger] ext[e],
            st.account_id,
            genesis_lo(),
            st.pst_time as int,
        ) by {
            if ext[e].account_id == st.account_id {
                assert(!(st.stmt_status == StmtStatus::CLOSED && st.account_id
                    == inputs[e].account_id && st.pst_time >= p.pst_time));
                assert(ext[e].pst_time as int > st.pst_time as int);
            }
        }
        lemma_sum_zero_out_of_scope(ext, st.account_id, genesis_lo(), st.pst_time as int);
    }
}

impl Store {
    /// Some referenced record is missing: the ledger itself, a line's
    /// account within that ledger, or a corrected base line.
    pub open spec fn append_missing(self, ledger_id: u128, inputs: Seq<LineInput>) -> bool {
        ||| !self.has_ledger(ledger_id)
        ||| exists|k: int|
            0 <= k < inputs.len() && !self.has_account_in_ledger(
                (#[trigger] inputs[k]).account_id,
                ledger_id,
            )
        ||| exists|k: int|
            0 <= k < inputs.len() && (#[trigger] inputs[k]).base_line is Some && !self.has_line(
                inputs[k].base_line->Some_0,
            )
    }

    /// The batch does not form a balanced posting: it is empty, a line is
    /// malformed, or total debit differs from total credit.
    pub open spec fn append_unbalanced(inputs: Seq<LineInput>, pst_type: PostingType) -> bool {
        ||| inputs.len() == 0
        ||| exists|k: int| 0 <= k < inputs.len() && !input_shape_ok(#[trigger] inputs[k], pst_type)
        ||| input_debit_total(inputs) != input_credit_total(inputs)
    }

    /// A line would land at or before a closed statement cutoff of its
    /// account, which would silently change that statement's totals.
    pub open spec fn append_behind_cutoff(self, inputs: Seq<LineInput>, value_time: u64) -> bool {
        exists|si: int, k: int|
            0 <= si < self.account_stmts@.len() && 0 <= k < inputs.len() && (
            #[trigger] self.account_stmts@[si]).stmt_status == StmtStatus::CLOSED
                && self.account_stmts@[si].account_id == (#[trigger] inputs[k]).account_id
                && self.account_stmts@[si].pst_time >= value_time
    }

    /// The caller's observed chain head is the current one.
    pub open spec fn head_matches(self, ledger_id: u128, observed_head: Option<u128>) -> bool {
        match observed_head {
            Option::None => forall|t: int|
                0 <= t < self.postings@.len() ==> (#[trigger] self.postings@[t]).ledger_id
                    != ledger_id,
            Option::Some(h) => exists|i: int|
                0 <= i < self.postings@.len() && (#[trigger] self.postings@[i]).ledger_id
                    == ledger_id && self.postings@[i].id == h && forall|t: int|
                    i < t < self.postings@.len() ==> (#[trigger] self.postings@[t]).ledger_id
                        != ledger_id,
        }
    }

    /// Validates and appends a posting: every line's account must exist in
    /// the ledger, total debit must equal total credit, the operation id
    /// must have no non-discarded posting, no line may land at or before a
    /// closed statement cutoff of its account, and the caller's observed
    /// chain head must still be current. On success the posting and its
    /// lines are stored atomically as one unit, hash-chained to the head,
    /// and the new posting's id and hash are returned.
    #[verifier::rlimit(100)]
    pub fn append(
        &mut self,
        ledger_id: u128,
        opr_id: u64,
        opr_time: u64,
        inputs: &Vec<LineInput>,
        value_time: u64,
        pst_type: PostingType,
        pst_status: PostingStatus,
        observed_head: Option<u128>,
    ) -> (r: Result<(u128, u64), LedgerError>)
        requires
            old(self).wf(),
        ensures
            final(self).wf(),
            ({
                let nf = old(self).append_missing(ledger_id, inputs@);
                let unb = Store::append_unbalanced(inputs@, pst_type);
                let dup = old(self).has_active_opr(opr_id);
                let ooo = old(self).append_behind_cutoff(inputs@, value_time);
                let conf = !old(self).head_matches(ledger_id, observed_head);
                &&& nf ==> r == Err::<(u128, u64), LedgerError>(LedgerError::NotFoundError)
                    && *final(self) == *old(self)
                &&& !nf && unb ==> r == Err::<(u128, u64), LedgerError>(
                    LedgerError::UnbalancedPostingError,
                ) && *final(self) == *old(self)
                &&& !nf && !unb && dup ==> r == Err::<(u128, u64), LedgerError>(
                    LedgerError::DuplicateOperationError,
                ) && *final(self) == *old(self)
                &&& !nf && !unb && !dup && ooo ==> r == Err::<(u128, u64), LedgerError>(
                    LedgerError::OutOfOrderCheckpointError,
                ) && *final(self) == *old(self)
                &&& !nf && !unb && !dup && !ooo && conf ==> r == Err::<(u128, u64), LedgerError>(
                    LedgerError::ChainConflictError,
                ) && *final(self) == *old(self)
                &&& !nf && !unb && !dup && !ooo && !conf ==> {
                    let p = final(self).postings@.last();
                    &&& r == Ok::<(u128, u64), LedgerError>((p.id, p.hash))
                    &&& final(self).postings@ == old(self).postings@.push(p)
                    &&& p.id == old(self).next_id
                    &&& p.ledger_id == ledger_id
                    &&& p.opr_id == opr_id
                    &&& p.opr_time == opr_time
                    &&& p.pst_time == value_time
                    &&& p.pst_type == pst_type
                    &&& p.pst_status == pst_status
                    &&& p.record_time == old(self).clock
                    &&& p.antecedent_id == observed_head
                    &&& p.discarded_id is None
                    &&& p.discarded_time is None
                    &&& final(self).lines@.len() == old(self).lines@.len() + inputs@.len()
                    &&& forall|t: int|
                        0 <= t < old(self).lines@.len() ==> final(self).lines@[t] == old(
                            self,
                        ).lines@[t]
                    &&& forall|e: int|
                        0 <= e < inputs@.len() ==> {
                            let l = #[trigger] final(self).lines@[old(self).lines@.len() + e];
                            &&& l.id == p.id + 1 + e
                            &&& l.posting_id == p.id
                            &&& l.account_id == inputs@[e].account_id
                            &&& l.debit_amount == inputs@[e].debit_amount
                            &&& l.credit_amount == inputs@[e].credit_amount
                            &&& l.base_line == inputs@[e].base_line
                            &&& l.pst_time == value_time
                            &&& l.opr_id == opr_id
                            &&& l.record_time == old(self).clock
                            &&& l.discarded_time is None
                        }
                    &&& final(self).charts@ == old(self).charts@
                    &&& final(self).ledgers@ == old(self).ledgers@
                    &&& final(self).accounts@ == old(self).accounts@
                    &&& final(self).account_stmts@ == old(self).account_stmts@
                    &&& final(self).ledger_stmts@ == old(self).ledger_stmts@
                    &&& final(self).traces@ == old(self).traces@
                    &&& final(self).clock == old(self).clock + 1
                }
            }),
    {
        if self.find_ledger_index(ledger_id).is_none() {
            return Err(LedgerError::NotFoundError);
        }
        let mut k: usize = 0;
        while k < inputs.len()
            invariant
                0 <= k <= inputs@.len(),
                forall|t: int|
                    0 <= t < k ==> self.has_account_in_ledger(
                        (#[trigger] inputs@[t]).account_id,
                        ledger_id,
                    ),
                forall|t: int|
                    0 <= t < k ==> ((#[trigger] inputs@[t]).base_line is Some ==> self.has_line(
                        inputs@[t].base_line->Some_0,
                    )),
            decreases inputs@.len() - k,
        {
            if self.find_account_in_ledger(inputs[k].account_id, ledger_id).is_none() {
                return Err(LedgerError::NotFoundError);
            }
            match inputs[k].base_line {
                Some(b) => {
                    if self.find_line_index(b).is_none() {
                        return Err(LedgerError::NotFoundError);
                    }
                },
                None => {},
            }
            k = k + 1;
        }
        if inputs.len() == 0 {
            return Err(LedgerError::UnbalancedPostingError);
        }
        let mut debit_total: u128 = 0;
        let mut credit_total: u128 = 0;
        let mut k: usize = 0;
        while k < inputs.len()
            invariant
                0 <= k <= inputs@.len(),
                forall|t: int| 0 <= t < k ==> input_shape_ok(#[trigger] inputs@[t], pst_type),
                debit_total == input_debit_total(inputs@.take(k as int)),
                credit_total == input_credit_total(inputs@.take(k as int)),
                debit_total <= k * (u64::MAX as u128),
                credit_total <= k * (u64::MAX as u128),
            decreases inputs@.len() - k,
        {
            let l = inputs[k];
            let shape_ok = if l.debit_amount > 0 {
                l.credit_amount == 0
            } else if l.credit_amount > 0 {
                true
            } else {
                crate::store::is_stmt_type(pst_type)
            };
            if !shape_ok {
                proof {
                    assert(!input_shape_ok(inputs@[k as int], pst_type));
                }
                return Err(LedgerError::UnbalancedPostingError);
            }
            proof {
                assert(k * (u64::MAX as u128) + u64::MAX <= (k + 1) * (u64::MAX as u128))
                    by (nonlinear_arith);
                assert((k + 1) * (u64::MAX as u128) <= inputs@.len() * (u64::MAX as u128))
                    by (nonlinear_arith)
                    requires k + 1 <= inputs@.len(),
                ;
                assert(inputs@.len() * (u64::MAX as u128) < u128::MAX) by (nonlinear_arith)
                    requires inputs@.len() <= usize::MAX,
                ;
            }
            debit_total = debit_total + l.debit_amount as u128;
            credit_total = credit_total + l.credit_amount as u128;
            k = k + 1;
            proof {
                assert(inputs@.take(k as int).drop_last() =~= inputs@.take(k - 1));
                assert(inputs@.take(k as int).last() == inputs@[k - 1]);
            }
        }
        proof {
            assert(inputs@.take(inputs@.len() as int) =~= inputs@);
        }
        if debit_total != credit_total {
            return Err(LedgerError::UnbalancedPostingError);
        }
        if self.active_opr_exists(opr_id) {
            return Err(LedgerError::DuplicateOperationError);
        }
        let mut si: usize = 0;
        while si < self.account_stmts.len()
            invariant
                0 <= si <= self.account_stmts@.len(),
                forall|s: int, t: int|
                    0 <= s < si && 0 <= t < inputs@.len() ==> !((
                    #[trigger] self.account_stmts@[s]).stmt_status == StmtStatus::CLOSED
                        && self.account_stmts@[s].account_id == (#[trigger] inputs@[t]).account_id
                        && self.account_stmts@[s].pst_time >= value_time),
            decreases self.account_stmts@.len() - si,
        {
            let st = self.account_stmts[si];
            if matches!(st.stmt_status, StmtStatus::CLOSED) && st.pst_time >= value_time {
                let mut t: usize = 0;
                while t < inputs.len()
                    invariant
                        0 <= t <= inputs@.len(),
                        forall|u: int|
                            0 <= u < t ==> (#[trigger] inputs@[u]).account_id != st.account_id,
                        st == self.account_stmts@[si as int],
                        si < self.account_stmts@.len(),
                    decreases inputs@.len() - t,
                {
                    if inputs[t].account_id == st.account_id {
                        proof {
                            assert(self.account_stmts@[si as int].stmt_status == StmtStatus::CLOSED
                                && self.account_stmts@[si as int].account_id
                                == inputs@[t as int].account_id && self.account_stmts@[
                            si as int].pst_time >= value_time);
                        }
                        return Err(LedgerError::OutOfOrderCheckpointError);
                    }
                    t = t + 1;
                }
            }
            si = si + 1;
        }
        let head = self.head_index(ledger_id);
        let head_ok = match head {
            Some(hi) => {
                match observed_head {
                    Some(h) => self.postings[hi].id == h,
                    None => false,
                }
            },
            None => observed_head.is_none(),
        };
        if !head_ok {
            proof {
                assert(!self.head_matches(ledger_id, observed_head));
            }
            return Err(LedgerError::ChainConflictError);
        }
        proof {
            assert(self.head_matches(ledger_id, observed_head));
        }
        let antecedent_hash: Option<u64> = match head {
            Some(hi) => Some(self.postings[hi].hash),
            None => None,
        };
        self.counter_headroom();
        let pid = self.next_id;
        let mut hashes: Vec<u64> = Vec::new();
        let mut k: usize = 0;
        while k < inputs.len()
            invariant
                0 <= k <= inputs@.len(),
                hashes@.len() == k,
                forall|e: int|
                    0 <= e < k ==> hashes@[e] == spec_digest(spec_line_words(
                        (#[trigger] inputs@[e]).account_id,
                        inputs@[e].debit_amount,
                        inputs@[e].credit_amount,
                        value_time,
                        opr_id,
                    )),
            decreases inputs@.len() - k,
        {
            let l = inputs[k];
            hashes.push(line_hash(l.account_id, l.debit_amount, l.credit_amount, value_time, opr_id));
            k = k + 1;
        }
        let phash = posting_hash(
            ledger_id,
            opr_id,
            opr_time,
            value_time,
            pst_type,
            pst_status,
            antecedent_hash,
            &hashes,
        );
        let n_posts = self.postings.len();
        proof {
            reveal(Store::wf_postings);
            assert(self.clock == n_posts);
        }
        let record_time = self.clock;
        let antecedent_id: Option<u128> = match head {
            Some(hi) => Some(self.postings[hi].id),
            None => None,
        };
        let p = Posting {
            id: pid,
            antecedent_id,
            antecedent_hash,
            hash: phash,
            record_time,
            opr_id,
            opr_time,
            pst_time: value_time,
            pst_type,
            pst_status,
            ledger_id,
            discarded_id: None,
            discarded_time: None,
        };
        self.postings.push(p);
        self.clock = record_time + 1;
        let ghost mid = *self;
        let ghost old_lines = old(self).lines@;
        let mut k: usize = 0;
        while k < inputs.len()
            invariant
                0 <= k <= inputs@.len(),
                self.lines@.len() == old_lines.len() + k,
                forall|t: int| 0 <= t < old_lines.len() ==> self.lines@[t] == old_lines[t],
                forall|e: int|
                    0 <= e < k ==> {
                        let l = #[trigger] self.lines@[old_lines.len() + e];
                        &&& l.id == pid + 1 + e
                        &&& l.posting_id == pid
                        &&& l.account_id == inputs@[e].account_id
                        &&& l.debit_amount == inputs@[e].debit_amount
                        &&& l.credit_amount == inputs@[e].credit_amount
                        &&& l.base_line == inputs@[e].base_line
                        &&& l.record_time == record_time
                        &&& l.opr_id == opr_id
                        &&& l.pst_time == value_time
                        &&& l.pst_type == pst_type
                        &&& l.pst_status == pst_status
                        &&& l.hash == spec_line_hash(l)
                        &&& l.hash == hashes@[e]
                        &&& l.discarded_time is None
                    },
                self.postings@ == mid.postings@,
                self.charts@ == mid.charts@,
                self.ledgers@ == mid.ledgers@,
                self.accounts@ == mid.accounts@,
                self.account_stmts@ == mid.account_stmts@,
                self.ledger_stmts@ == mid.ledger_stmts@,
                self.traces@ == mid.traces@,
                self.next_id == mid.next_id,
                self.clock == mid.clock,
                pid + 1 + inputs@.len() < u128::MAX,
            decreases inputs@.len() - k,
        {
            let l = inputs[k];
            let lid = pid + 1 + (k as u128);
            let line = PostingLine {
                id: lid,
                posting_id: pid,
                account_id: l.account_id,
                debit_amount: l.debit_amount,
                credit_amount: l.credit_amount,
                base_line: l.base_line,
                record_time,
                opr_id,
                pst_time: value_time,
                pst_type,
                pst_status,
                hash: hashes[k],
                discarded_time: None,
            };
            self.lines.push(line);
            k = k + 1;
        }
        let n_inputs = inputs.len();
        self.next_id = pid + 1 + (n_inputs as u128);
        proof {
            let pre = *old(self);
            let post = *self;
            assert(post.postings@ =~= pre.postings@.push(p));
            assert(append_post_shape(pre, post, p, inputs@, hashes@));
            lemma_append_postings_lines(pre, post, p, inputs@, hashes@);
            let hidx: Option<int> = match head {
                Some(hi) => Some(hi as int),
                None => None,
            };
            lemma_append_chain(pre, post, p, inputs@, hashes@, hidx);
            lemma_append_stmts(pre, post, p, inputs@, hashes@);
            Store::lemma_grow_charts(pre, post);
            Store::lemma_grow_ledgers(pre, post);
            Store::lemma_grow_accounts(pre, post);
            Store::lemma_grow_ledger_stmts(pre, post);
            Store::lemma_grow_traces(pre, post);
        }
        Ok((pid, phash))
    }
}

} // verus!
