//! Folds over posting lines: the debit and credit totals of an account
//! over a value-time window, and the totals of one posting's lines.
//!
//! Balance reconstruction and statement totals are both stated over these
//! folds, which is what makes a statement interchangeable with replay.

use vstd::prelude::*;

use crate::records::{LineInput, PostingLine};

verus! {

/// A line counts for normal reads while its posting is not superseded.
pub open spec fn line_active(l: PostingLine) -> bool {
    l.discarded_time is None
}

/// Whether a line counts for an account's totals over the value-time
/// window `(lo, hi]`: it belongs to the account, is not discarded, and its
/// value time lies in the window.
pub open spec fn line_in_scope(l: PostingLine, account_id: u128, lo: int, hi: int) -> bool {
    &&& l.account_id == account_id
    &&& line_active(l)
    &&& lo < l.pst_time as int
    &&& l.pst_time as int <= hi
}

/// Sum of the debit amounts of the lines in scope of `(account_id, lo, hi]`.
pub open spec fn debit_sum(lines: Seq<PostingLine>, account_id: u128, lo: int, hi: int) -> int
    decreases lines.len(),
{
    if lines.len() == 0 {
        0
    } else {
        debit_sum(lines.drop_last(), account_id, lo, hi) + if line_in_scope(
            lines.last(),
            account_id,
            lo,
            hi,
        ) {
            lines.last().debit_amount as int
        } else {
            0
        }
    }
}

/// Sum of the credit amounts of the lines in scope of `(account_id, lo, hi]`.
pub open spec fn credit_sum(lines: Seq<PostingLine>, account_id: u128, lo: int, hi: int) -> int
    decreases lines.len(),
{
    if lines.len() == 0 {
        0
    } else {
        credit_sum(lines.drop_last(), account_id, lo, hi) + if line_in_scope(
            lines.last(),
            account_id,
            lo,
            hi,
        ) {
            lines.last().credit_amount as int
        } else {
            0
        }
    }
}

/// The window bound below every `u64` value time: a fold over
/// `(GENESIS, hi]` replays from the beginning of time.
pub open spec fn genesis_lo() -> int {
    -1
}

/// Sum of the debit amounts of all lines of one posting.
pub open spec fn posting_debit_total(lines: Seq<PostingLine>, posting_id: u128) -> int
    decreases lines.len(),
{
    if lines.len() == 0 {
        0
    } else {
        posting_debit_total(lines.drop_last(), posting_id) + if lines.last().posting_id
            == posting_id {
            lines.last().debit_amount as int
        } else {
            0
        }
    }
}

/// Sum of the credit amounts of all lines of one posting.
pub open spec fn posting_credit_total(lines: Seq<PostingLine>, posting_id: u128) -> int
    decreases lines.len(),
{
    if lines.len() == 0 {
        0
    } else {
        posting_credit_total(lines.drop_last(), posting_id) + if lines.last().posting_id
            == posting_id {
            lines.last().credit_amount as int
        } else {
            0
        }
    }
}

/// Sum of the debit amounts of a batch of line inputs.
pub open spec fn input_debit_total(inputs: Seq<LineInput>) -> int
    decreases inputs.len(),
{
    if inputs.len() == 0 {
        0
    } else {
        input_debit_total(inputs.drop_last()) + inputs.last().debit_amount as int
    }
}

/// Sum of the credit amounts of a batch of line inputs.
pub open spec fn input_credit_total(inputs: Seq<LineInput>) -> int
    decreases inputs.len(),
{
    if inputs.len() == 0 {
        0
    } else {
        input_credit_total(inputs.drop_last()) + inputs.last().credit_amount as int
    }
}

/// The window sums lie between zero and the number of lines times the
/// largest amount.
pub proof fn lemma_sum_bounds(lines: Seq<PostingLine>, account_id: u128, lo: int, hi: int)
    ensures
        0 <= debit_sum(lines, account_id, lo, hi) <= lines.len() * u64::MAX,
        0 <= credit_sum(lines, account_id, lo, hi) <= lines.len() * u64::MAX,
    decreases lines.len(),
{
    if lines.len() > 0 {
        lemma_sum_bounds(lines.drop_last(), account_id, lo, hi);
        assert((lines.len() - 1) * u64::MAX + u64::MAX == lines.len() * u64::MAX) by (nonlinear_arith);
    }
}

/// Splitting a window at `mid` splits its sums.
pub proof fn lemma_sum_split(lines: Seq<PostingLine>, account_id: u128, lo: int, mid: int, hi: int)
    requires
        lo <= mid <= hi,
    ensures
        debit_sum(lines, account_id, lo, hi) == debit_sum(lines, account_id, lo, mid) + debit_sum(
            lines,
            account_id,
            mid,
            hi,
        ),
        credit_sum(lines, account_id, lo, hi) == credit_sum(lines, account_id, lo, mid)
            + credit_sum(lines, account_id, mid, hi),
    decreases lines.len(),
{
    if lines.len() > 0 {
        lemma_sum_split(lines.drop_last(), account_id, lo, mid, hi);
    }
}

/// Two line sequences that agree pointwise on scope and on the amounts of
/// lines in scope have the same window sums.
pub proof fn lemma_sum_pointwise(
    a: Seq<PostingLine>,
    b: Seq<PostingLine>,
    account_id: u128,
    lo: int,
    hi: int,
)
    requires
        a.len() == b.len(),
        forall|i: int|
            0 <= i < a.len() ==> (line_in_scope(a[i], account_id, lo, hi) == line_in_scope(
                b[i],
                account_id,
                lo,
                hi,
            ) && (line_in_scope(a[i], account_id, lo, hi) ==> a[i].debit_amount == b[i].debit_amount
                && a[i].credit_amount == b[i].credit_amount)),
    ensures
        debit_sum(a, account_id, lo, hi) == debit_sum(b, account_id, lo, hi),
        credit_sum(a, account_id, lo, hi) == credit_sum(b, account_id, lo, hi),
    decreases a.len(),
{
    if a.len() > 0 {
        lemma_sum_pointwise(a.drop_last(), b.drop_last(), account_id, lo, hi);
    }
}

/// Two line sequences that agree pointwise on owning posting and amounts
/// have the same per-posting totals.
pub proof fn lemma_posting_total_pointwise(a: Seq<PostingLine>, b: Seq<PostingLine>, posting_id: u128)
    requires
        a.len() == b.len(),
        forall|i: int|
            0 <= i < a.len() ==> a[i].posting_id == b[i].posting_id && a[i].debit_amount
                == b[i].debit_amount && a[i].credit_amount == b[i].credit_amount,
    ensures
        posting_debit_total(a, posting_id) == posting_debit_total(b, posting_id),
        posting_credit_total(a, posting_id) == posting_credit_total(b, posting_id),
    decreases a.len(),
{
    if a.len() > 0 {
        lemma_posting_total_pointwise(a.drop_last(), b.drop_last(), posting_id);
    }
}

/// Removing a line that is out of scope leaves the window sums unchanged:
/// a discarded line is excluded from balance reconstruction exactly as if
/// it were not stored, while it in fact remains stored for audit.
pub proof fn lemma_sum_remove_out_of_scope(
    lines: Seq<PostingLine>,
    i: int,
    account_id: u128,
    lo: int,
    hi: int,
)
    requires
        0 <= i < lines.len(),
        !line_in_scope(lines[i], account_id, lo, hi),
    ensures
        debit_sum(lines.remove(i), account_id, lo, hi) == debit_sum(lines, account_id, lo, hi),
        credit_sum(lines.remove(i), account_id, lo, hi) == credit_sum(lines, account_id, lo, hi),
    decreases lines.len(),
{
    if i == lines.len() - 1 {
        assert(lines.remove(i) =~= lines.drop_last());
    } else {
        assert(lines.remove(i).drop_last() =~= lines.drop_last().remove(i));
        assert(lines.remove(i).last() == lines.last());
        lemma_sum_remove_out_of_scope(lines.drop_last(), i, account_id, lo, hi);
    }
}

/// Concatenation splits the window sums.
pub proof fn lemma_sum_append(
    base: Seq<PostingLine>,
    ext: Seq<PostingLine>,
    account_id: u128,
    lo: int,
    hi: int,
)
    ensures
        debit_sum(base + ext, account_id, lo, hi) == debit_sum(base, account_id, lo, hi)
            + debit_sum(ext, account_id, lo, hi),
        credit_sum(base + ext, account_id, lo, hi) == credit_sum(base, account_id, lo, hi)
            + credit_sum(ext, account_id, lo, hi),
    decreases ext.len(),
{
    if ext.len() == 0 {
        assert(base + ext =~= base);
    } else {
        lemma_sum_append(base, ext.drop_last(), account_id, lo, hi);
        assert((base + ext).drop_last() =~= base + ext.drop_last());
        assert((base + ext).last() == ext.last());
    }
}

/// A sequence of lines all out of scope sums to nothing.
pub proof fn lemma_sum_zero_out_of_scope(
    ext: Seq<PostingLine>,
    account_id: u128,
    lo: int,
    hi: int,
)
    requires
        forall|e: int| 0 <= e < ext.len() ==> !line_in_scope(#[trigger] ext[e], account_id, lo, hi),
    ensures
        debit_sum(ext, account_id, lo, hi) == 0,
        credit_sum(ext, account_id, lo, hi) == 0,
    decreases ext.len(),
{
    if ext.len() > 0 {
        lemma_sum_zero_out_of_scope(ext.drop_last(), account_id, lo, hi);
    }
}

/// Concatenation splits a posting's totals.
pub proof fn lemma_posting_total_append(base: Seq<PostingLine>, ext: Seq<PostingLine>, posting_id: u128)
    ensures
        posting_debit_total(base + ext, posting_id) == posting_debit_total(base, posting_id)
            + posting_debit_total(ext, posting_id),
        posting_credit_total(base + ext, posting_id) == posting_credit_total(base, posting_id)
            + posting_credit_total(ext, posting_id),
    decreases ext.len(),
{
    if ext.len() == 0 {
        assert(base + ext =~= base);
    } else {
        lemma_posting_total_append(base, ext.drop_last(), posting_id);
        assert((base + ext).drop_last() =~= base + ext.drop_last());
        assert((base + ext).last() == ext.last());
    }
}

/// A posting without lines in the sequence has zero totals there.
pub proof fn lemma_posting_total_absent(lines: Seq<PostingLine>, posting_id: u128)
    requires
        forall|e: int| 0 <= e < lines.len() ==> (#[trigger] lines[e]).posting_id != posting_id,
    ensures
        posting_debit_total(lines, posting_id) == 0,
        posting_credit_total(lines, posting_id) == 0,
    decreases lines.len(),
{
    if lines.len() > 0 {
        lemma_posting_total_absent(lines.drop_last(), posting_id);
    }
}

/// Lines built one for one from a batch of inputs total exactly what the
/// inputs total.
pub proof fn lemma_built_totals(ext: Seq<PostingLine>, inputs: Seq<LineInput>, posting_id: u128)
    requires
        ext.len() == inputs.len(),
        forall|e: int|
            0 <= e < ext.len() ==> (#[trigger] ext[e]).posting_id == posting_id
                && ext[e].debit_amount == inputs[e].debit_amount && ext[e].credit_amount
                == inputs[e].credit_amount,
    ensures
        posting_debit_total(ext, posting_id) == input_debit_total(inputs),
        posting_credit_total(ext, posting_id) == input_credit_total(inputs),
    decreases ext.len(),
{
    if ext.len() > 0 {
        lemma_built_totals(ext.drop_last(), inputs.drop_last(), posting_id);
    }
}

} // verus!
