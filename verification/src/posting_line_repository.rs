//! Lookups over posting lines. The non-discarded finders return lines in
//! record-time-descending order, which under the store's invariant is
//! reverse storage order: the most recently recorded line comes first.

use vstd::assert_multisets_equal;
use vstd::prelude::*;

use crate::records::PostingLine;
use crate::store::Store;
use crate::sums::line_active;

verus! {

/// The non-discarded lines of the account with value time at or before
/// `hi`, from storage position `k` to the end, in reverse storage order.
pub open spec fn spec_rev_account_lines(
    lines: Seq<PostingLine>,
    account_id: u128,
    hi: u64,
    k: int,
) -> Seq<PostingLine>
    decreases lines.len() - k,
{
    if k < 0 || k >= lines.len() {
        Seq::empty()
    } else {
        spec_rev_account_lines(lines, account_id, hi, k + 1) + if lines[k].account_id == account_id
            && line_active(lines[k]) && lines[k].pst_time <= hi {
            seq![lines[k]]
        } else {
            Seq::empty()
        }
    }
}

/// The non-discarded lines correcting base line `base`, with value time
/// at or before `hi`, from storage position `k` to the end, in reverse
/// storage order.
pub open spec fn spec_rev_base_lines(
    lines: Seq<PostingLine>,
    base: u128,
    hi: u64,
    k: int,
) -> Seq<PostingLine>
    decreases lines.len() - k,
{
    if k < 0 || k >= lines.len() {
        Seq::empty()
    } else {
        spec_rev_base_lines(lines, base, hi, k + 1) + if lines[k].base_line == Some(base)
            && line_active(lines[k]) && lines[k].pst_time <= hi {
            seq![lines[k]]
        } else {
            Seq::empty()
        }
    }
}

/// When line record times are non-decreasing in storage order, a
/// reverse-storage selection is non-increasing in record time.
proof fn lemma_rev_account_sorted(
    lines: Seq<PostingLine>,
    account_id: u128,
    hi: u64,
    k: int,
)
    requires
        forall|i: int, j: int|
            0 <= i < j < lines.len() ==> (#[trigger] lines[i]).record_time <= (
            #[trigger] lines[j]).record_time,
        0 <= k,
    ensures
        ({
            let r = spec_rev_account_lines(lines, account_id, hi, k);
            &&& forall|e1: int, e2: int|
                0 <= e1 < e2 < r.len() ==> (#[trigger] r[e1]).record_time >= (
                #[trigger] r[e2]).record_time
            &&& k < lines.len() ==> forall|e: int|
                0 <= e < r.len() ==> (#[trigger] r[e]).record_time >= lines[k].record_time
        }),
    decreases lines.len() - k,
{
    if k < lines.len() {
        lemma_rev_account_sorted(lines, account_id, hi, k + 1);
        let prev = spec_rev_account_lines(lines, account_id, hi, k + 1);
        let r = spec_rev_account_lines(lines, account_id, hi, k);
        assert forall|e: int| 0 <= e < r.len() implies (#[trigger] r[e]).record_time
            >= lines[k].record_time by {
            if e < prev.len() {
                assert(r[e] == prev[e]);
                assert(k + 1 < lines.len());
                assert(lines[k].record_time <= lines[k + 1].record_time);
            } else {
                assert(r[e] == lines[k]);
            }
        }
        assert forall|e1: int, e2: int|
            0 <= e1 < e2 < r.len() implies (#[trigger] r[e1]).record_time >= (
        #[trigger] r[e2]).record_time by {
            if e2 < prev.len() {
                assert(r[e1] == prev[e1] && r[e2] == prev[e2]);
            } else {
                assert(r[e2] == lines[k]);
                assert(r[e1].record_time >= lines[k].record_time);
            }
        }
    }
}

/// The same, for the base-line selection.
proof fn lemma_rev_base_sorted(lines: Seq<PostingLine>, base: u128, hi: u64, k: int)
    requires
        forall|i: int, j: int|
            0 <= i < j < lines.len() ==> (#[trigger] lines[i]).record_time <= (
            #[trigger] lines[j]).record_time,
        0 <= k,
    ensures
        ({
            let r = spec_rev_base_lines(lines, base, hi, k);
            &&& forall|e1: int, e2: int|
                0 <= e1 < e2 < r.len() ==> (#[trigger] r[e1]).record_time >= (
                #[trigger] r[e2]).record_time
            &&& k < lines.len() ==> forall|e: int|
                0 <= e < r.len() ==> (#[trigger] r[e]).record_time >= lines[k].record_time
        }),
    decreases lines.len() - k,
{
    if k < lines.len() {
        lemma_rev_base_sorted(lines, base, hi, k + 1);
        let prev = spec_rev_base_lines(lines, base, hi, k + 1);
        let r = spec_rev_base_lines(lines, base, hi, k);
        assert forall|e: int| 0 <= e < r.len() implies (#[trigger] r[e]).record_time
            >= lines[k].record_time by {
            if e < prev.len() {
                assert(r[e] == prev[e]);
                assert(k + 1 < lines.len());
                assert(lines[k].record_time <= lines[k + 1].record_time);
            } else {
                assert(r[e] == lines[k]);
            }
        }
        assert forall|e1: int, e2: int|
            0 <= e1 < e2 < r.len() implies (#[trigger] r[e1]).record_time >= (
        #[trigger] r[e2]).record_time by {
            if e2 < prev.len() {
                assert(r[e1] == prev[e1] && r[e2] == prev[e2]);
            } else {
                assert(r[e2] == lines[k]);
                assert(r[e1].record_time >= lines[k].record_time);
            }
        }
    }
}

/// The line with this id against this account, discarded or not.
pub fn find_first_by_id_and_account(
    store: &Store,
    transaction_id: u128,
    account_id_val: u128,
) -> (r: Option<PostingLine>)
    ensures
        match r {
            Some(l) => l.id == transaction_id && l.account_id == account_id_val && exists|k: int|
                0 <= k < store.lines@.len() && (#[trigger] store.lines@[k]) == l,
            None => forall|k: int|
                0 <= k < store.lines@.len() ==> !((#[trigger] store.lines@[k]).id == transaction_id
                    && store.lines@[k].account_id == account_id_val),
        },
{
    let mut k: usize = 0;
    while k < store.lines.len()
        invariant
            0 <= k <= store.lines@.len(),
            forall|t: int|
                0 <= t < k ==> !((#[trigger] store.lines@[t]).id == transaction_id
                    && store.lines@[t].account_id == account_id_val),
        decreases store.lines@.len() - k,
    {
        let l = store.lines[k];
        if l.id == transaction_id && l.account_id == account_id_val {
            proof {
                assert(store.lines@[k as int] == l);
            }
            return Some(l);
        }
        k = k + 1;
    }
    None
}

/// The account's non-discarded lines with value time at or before
/// `ref_time_val`, most recently recorded first.
pub fn find_by_account_and_pst_time_lte_and_discarded_is_null_order_by_record_time_desc(
    store: &Store,
    account_id_val: u128,
    ref_time_val: u64,
) -> (r: Vec<PostingLine>)
    requires
        store.wf(),
    ensures
        r@ == spec_rev_account_lines(store.lines@, account_id_val, ref_time_val, 0),
        forall|i: int, j: int|
            0 <= i < j < r@.len() ==> (#[trigger] r@[i]).record_time >= (
            #[trigger] r@[j]).record_time,
{
    proof {
        reveal(Store::wf_lines);
        lemma_rev_account_sorted(store.lines@, account_id_val, ref_time_val, 0);
    }
    let mut r: Vec<PostingLine> = Vec::new();
    let mut k: usize = store.lines.len();
    while k > 0
        invariant
            0 <= k <= store.lines@.len(),
            r@ == spec_rev_account_lines(store.lines@, account_id_val, ref_time_val, k as int),
        decreases k,
    {
        k = k - 1;
        let l = store.lines[k];
        if l.account_id == account_id_val && l.discarded_time.is_none() && l.pst_time
            <= ref_time_val {
            r.push(l);
            proof {
                assert(r@ =~= spec_rev_account_lines(
                    store.lines@,
                    account_id_val,
                    ref_time_val,
                    k as int,
                ));
            }
        } else {
            proof {
                assert(r@ =~= spec_rev_account_lines(
                    store.lines@,
                    account_id_val,
                    ref_time_val,
                    k as int,
                ));
            }
        }
    }
    r
}

/// The non-discarded lines correcting the given base line, with value
/// time at or before `ref_time_val`, most recently recorded first.
pub fn find_by_base_line_and_pst_time_lte_and_discarded_is_null_order_by_record_time_desc(
    store: &Store,
    base_line_val: u128,
    ref_time_val: u64,
) -> (r: Vec<PostingLine>)
    requires
        store.wf(),
    ensures
        r@ == spec_rev_base_lines(store.lines@, base_line_val, ref_time_val, 0),
        forall|i: int, j: int|
            0 <= i < j < r@.len() ==> (#[trigger] r@[i]).record_time >= (
            #[trigger] r@[j]).record_time,
{
    proof {
        reveal(Store::wf_lines);
        lemma_rev_base_sorted(store.lines@, base_line_val, ref_time_val, 0);
    }
    let mut r: Vec<PostingLine> = Vec::new();
    let mut k: usize = store.lines.len();
    while k > 0
        invariant
            0 <= k <= store.lines@.len(),
            r@ == spec_rev_base_lines(store.lines@, base_line_val, ref_time_val, k as int),
        decreases k,
    {
        k = k - 1;
        let l = store.lines[k];
        let base_match = match l.base_line {
            Some(b) => b == base_line_val,
            None => false,
        };
        if base_match && l.discarded_time.is_none() && l.pst_time <= ref_time_val {
            r.push(l);
            proof {
                assert(r@ =~= spec_rev_base_lines(
                    store.lines@,
                    base_line_val,
                    ref_time_val,
                    k as int,
                ));
            }
        } else {
            proof {
                assert(r@ =~= spec_rev_base_lines(
                    store.lines@,
                    base_line_val,
                    ref_time_val,
                    k as int,
                ));
            }
        }
    }
    r
}

/// The non-discarded lines of the account with value time in
/// `(from_dt, to_dt]`, in storage order.
pub open spec fn spec_window_lines(
    lines: Seq<PostingLine>,
    account_id: u128,
    from_dt: u64,
    to_dt: u64,
) -> Seq<PostingLine>
    decreases lines.len(),
{
    if lines.len() == 0 {
        Seq::empty()
    } else {
        spec_window_lines(lines.drop_last(), account_id, from_dt, to_dt) + if lines.last()
            .account_id == account_id && line_active(lines.last()) && from_dt
            < lines.last().pst_time && lines.last().pst_time <= to_dt {
            seq![lines.last()]
        } else {
            Seq::empty()
        }
    }
}

/// Reorders lines by value time, greatest first, by repeatedly
/// extracting a line of greatest value time.
fn sort_by_pst_desc(v: Vec<PostingLine>) -> (r: Vec<PostingLine>)
    ensures
        r@.to_multiset() == v@.to_multiset(),
        forall|i: int, j: int|
            0 <= i < j < r@.len() ==> (#[trigger] r@[i]).pst_time >= (#[trigger] r@[j]).pst_time,
{
    let mut src = v;
    let mut r: Vec<PostingLine> = Vec::new();
    proof {
        broadcast use vstd::seq_lib::group_to_multiset_ensures;

        assert_multisets_equal!(r@.to_multiset().add(src@.to_multiset()), v@.to_multiset());
    }
    while src.len() > 0
        invariant
            r@.to_multiset().add(src@.to_multiset()) == v@.to_multiset(),
            forall|i: int, j: int|
                0 <= i < j < r@.len() ==> (#[trigger] r@[i]).pst_time >= (
                #[trigger] r@[j]).pst_time,
            forall|i: int, j: int|
                0 <= i < r@.len() && 0 <= j < src@.len() ==> (#[trigger] r@[i]).pst_time >= (
                #[trigger] src@[j]).pst_time,
        decreases src@.len(),
    {
        let mut mi: usize = 0;
        let mut k: usize = 1;
        while k < src.len()
            invariant
                0 <= mi < k <= src@.len(),
                forall|t: int|
                    0 <= t < k ==> (#[trigger] src@[t]).pst_time
                        <= src@[mi as int].pst_time,
            decreases src@.len() - k,
        {
            if src[k].pst_time > src[mi].pst_time {
                mi = k;
            }
            k = k + 1;
        }
        let ghost src0 = src@;
        let x = src.remove(mi);
        r.push(x);
        proof {
            broadcast use vstd::seq_lib::group_to_multiset_ensures;

            assert(src@ == src0.remove(mi as int));
            assert(src@.to_multiset() =~= src0.to_multiset().remove(x));
            assert(src0.to_multiset().count(x) >= 1) by {
                assert(src0.contains(x));
            }
            assert_multisets_equal!(
                r@.to_multiset().add(src@.to_multiset()),
                v@.to_multiset()
            );
            assert forall|i: int, j: int|
                0 <= i < r@.len() && 0 <= j < src@.len() implies (#[trigger] r@[i]).pst_time >= (
            #[trigger] src@[j]).pst_time by {
                if i < r@.len() - 1 {
                    assert(r@[i].pst_time >= x.pst_time);
                }
                if j < mi as int {
                    assert(src@[j] == src0[j]);
                } else {
                    assert(src@[j] == src0[j + 1]);
                }
                assert(src0.contains(src@[j]));
            }
        }
    }
    r
}

/// The account's non-discarded lines with value time in
/// `(from_dt, to_dt]`, ordered by value time, most recent first.
pub fn find_postings_by_account_and_dates(
    store: &Store,
    account_id_val: u128,
    from_dt: u64,
    to_dt: u64,
) -> (r: Vec<PostingLine>)
    ensures
        r@.to_multiset() == spec_window_lines(
            store.lines@,
            account_id_val,
            from_dt,
            to_dt,
        ).to_multiset(),
        forall|i: int, j: int|
            0 <= i < j < r@.len() ==> (#[trigger] r@[i]).pst_time >= (#[trigger] r@[j]).pst_time,
{
    let mut c: Vec<PostingLine> = Vec::new();
    let mut k: usize = 0;
    while k < store.lines.len()
        invariant
            0 <= k <= store.lines@.len(),
            c@ == spec_window_lines(store.lines@.take(k as int), account_id_val, from_dt, to_dt),
        decreases store.lines@.len() - k,
    {
        let l = store.lines[k];
        if l.account_id == account_id_val && l.discarded_time.is_none() && from_dt < l.pst_time
            && l.pst_time <= to_dt {
            c.push(l);
        }
        k = k + 1;
        proof {
            assert(store.lines@.take(k as int).drop_last() =~= store.lines@.take(k - 1));
            assert(store.lines@.take(k as int).last() == store.lines@[k - 1]);
        }
    }
    proof {
        assert(store.lines@.take(store.lines@.len() as int) =~= store.lines@);
    }
    sort_by_pst_desc(c)
}

} // verus!
