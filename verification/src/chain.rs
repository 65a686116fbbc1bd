//! The hash chain over a ledger's postings.
//!
//! Within one ledger, postings form a strict chain in record-time order:
//! each posting stores its antecedent's id and hash, and its own hash is
//! the content digest chained over the antecedent's hash. These predicates
//! say what an intact chain is; `verify` (in this module's executable
//! part) recomputes a chain and holds it against the stored hashes.

use vstd::prelude::*;

use crate::errors::LedgerError;
use crate::hash::{line_hash, posting_hash, spec_line_hash, spec_posting_hash};
use crate::records::{Posting, PostingLine};

verus! {

/// The content hashes of the lines of one posting, in storage order.
pub open spec fn line_hashes_of(lines: Seq<PostingLine>, posting_id: u128) -> Seq<u64>
    decreases lines.len(),
{
    if lines.len() == 0 {
        Seq::empty()
    } else {
        line_hashes_of(lines.drop_last(), posting_id) + if lines.last().posting_id == posting_id {
            seq![spec_line_hash(lines.last())]
        } else {
            Seq::empty()
        }
    }
}

/// A posting's stored hash equals the digest of its content and its
/// antecedent hash, with its lines' content hashes recomputed from the
/// lines themselves.
pub open spec fn hash_ok(p: Posting, lines: Seq<PostingLine>) -> bool {
    p.hash == spec_posting_hash(p, line_hashes_of(lines, p.id))
}

/// `p` stores the antecedent link to `prev`.
pub open spec fn links_to(prev: Posting, p: Posting) -> bool {
    &&& p.antecedent_id == Some(prev.id)
    &&& p.antecedent_hash == Some(prev.hash)
}

/// A posting without an antecedent: the first of its ledger.
pub open spec fn is_genesis(p: Posting) -> bool {
    &&& p.antecedent_id is None
    &&& p.antecedent_hash is None
}

/// `i` is the immediate predecessor of `j` within `j`'s ledger: the
/// nearest earlier posting of the same ledger.
pub open spec fn pred_in_ledger(postings: Seq<Posting>, i: int, j: int) -> bool {
    &&& 0 <= i < j < postings.len()
    &&& postings[i].ledger_id == postings[j].ledger_id
    &&& forall|k: int| i < k < j ==> (#[trigger] postings[k]).ledger_id != postings[j].ledger_id
}

/// `j` is the first posting of its ledger.
pub open spec fn first_in_ledger(postings: Seq<Posting>, j: int) -> bool {
    &&& 0 <= j < postings.len()
    &&& forall|k: int| 0 <= k < j ==> (#[trigger] postings[k]).ledger_id != postings[j].ledger_id
}

/// The whole store's hash chains are intact: every posting's stored hash
/// recomputes from its content and its lines, every posting links to its
/// ledger's immediately preceding posting, and every first posting of a
/// ledger is a genesis posting.
#[verifier::opaque]
pub open spec fn chain_ok(postings: Seq<Posting>, lines: Seq<PostingLine>) -> bool {
    &&& forall|j: int| 0 <= j < postings.len() ==> hash_ok(#[trigger] postings[j], lines)
    &&& forall|i: int, j: int|
        pred_in_ledger(postings, i, j) ==> links_to(#[trigger] postings[i], #[trigger] postings[j])
    &&& forall|j: int| first_in_ledger(postings, j) ==> is_genesis(#[trigger] postings[j])
}

/// A posting that owns no line in the sequence has no line hashes there.
pub proof fn lemma_line_hashes_absent(lines: Seq<PostingLine>, posting_id: u128)
    requires
        forall|i: int| 0 <= i < lines.len() ==> (#[trigger] lines[i]).posting_id != posting_id,
    ensures
        line_hashes_of(lines, posting_id) == Seq::<u64>::empty(),
    decreases lines.len(),
{
    if lines.len() > 0 {
        lemma_line_hashes_absent(lines.drop_last(), posting_id);
        assert(line_hashes_of(lines, posting_id) =~= Seq::<u64>::empty());
    }
}

/// Two line sequences that agree pointwise on owning posting and content
/// hash give every posting the same line hashes.
pub proof fn lemma_line_hashes_pointwise(a: Seq<PostingLine>, b: Seq<PostingLine>, posting_id: u128)
    requires
        a.len() == b.len(),
        forall|i: int|
            0 <= i < a.len() ==> (#[trigger] a[i]).posting_id == b[i].posting_id && spec_line_hash(
                a[i],
            ) == spec_line_hash(b[i]),
    ensures
        line_hashes_of(a, posting_id) == line_hashes_of(b, posting_id),
    decreases a.len(),
{
    if a.len() > 0 {
        lemma_line_hashes_pointwise(a.drop_last(), b.drop_last(), posting_id);
        assert(line_hashes_of(a, posting_id) =~= line_hashes_of(b, posting_id));
    }
}

/// Concatenation splits a posting's line hashes.
pub proof fn lemma_line_hashes_append(base: Seq<PostingLine>, ext: Seq<PostingLine>, posting_id: u128)
    ensures
        line_hashes_of(base + ext, posting_id) == line_hashes_of(base, posting_id)
            + line_hashes_of(ext, posting_id),
    decreases ext.len(),
{
    if ext.len() == 0 {
        assert(base + ext =~= base);
        assert(line_hashes_of(base, posting_id) + line_hashes_of(ext, posting_id)
            =~= line_hashes_of(base, posting_id));
    } else {
        lemma_line_hashes_append(base, ext.drop_last(), posting_id);
        assert((base + ext).drop_last() =~= base + ext.drop_last());
        assert((base + ext).last() == ext.last());
        if ext.last().posting_id == posting_id {
            assert(line_hashes_of(base + ext, posting_id) =~= line_hashes_of(base, posting_id)
                + line_hashes_of(ext, posting_id));
        } else {
            assert(line_hashes_of(base + ext, posting_id) =~= line_hashes_of(base, posting_id)
                + line_hashes_of(ext, posting_id));
        }
    }
}

/// The line hashes of a posting owning every line of the sequence are the
/// content hashes of those lines, in order.
pub proof fn lemma_line_hashes_all_own(ext: Seq<PostingLine>, posting_id: u128)
    requires
        forall|e: int| 0 <= e < ext.len() ==> (#[trigger] ext[e]).posting_id == posting_id,
    ensures
        line_hashes_of(ext, posting_id).len() == ext.len(),
        forall|e: int|
            0 <= e < ext.len() ==> line_hashes_of(ext, posting_id)[e] == spec_line_hash(
                #[trigger] ext[e],
            ),
    decreases ext.len(),
{
    if ext.len() > 0 {
        lemma_line_hashes_all_own(ext.drop_last(), posting_id);
        assert(line_hashes_of(ext, posting_id) =~= line_hashes_of(ext.drop_last(), posting_id)
            .push(spec_line_hash(ext.last())));
        assert forall|e: int| 0 <= e < ext.len() implies line_hashes_of(ext, posting_id)[e]
            == spec_line_hash(#[trigger] ext[e]) by {
            if e < ext.len() - 1 {
                assert(line_hashes_of(ext, posting_id)[e] == line_hashes_of(
                    ext.drop_last(),
                    posting_id,
                )[e]);
                assert(ext.drop_last()[e] == ext[e]);
            }
        }
    }
}

/// Pushing a posting that links to its ledger's current head (or is a
/// genesis posting of a fresh ledger) keeps every chain's links intact.
#[verifier::rlimit(100)]
pub proof fn lemma_push_links(ps: Seq<Posting>, p: Posting, head_idx: Option<int>)
    requires
        forall|i: int, j: int|
            pred_in_ledger(ps, i, j) ==> links_to(#[trigger] ps[i], #[trigger] ps[j]),
        forall|j: int| first_in_ledger(ps, j) ==> is_genesis(#[trigger] ps[j]),
        match head_idx {
            Option::Some(h) => {
                &&& 0 <= h < ps.len()
                &&& ps[h].ledger_id == p.ledger_id
                &&& forall|t: int| h < t < ps.len() ==> (#[trigger] ps[t]).ledger_id != p.ledger_id
                &&& p.antecedent_id == Some(ps[h].id)
                &&& p.antecedent_hash == Some(ps[h].hash)
            },
            Option::None => {
                &&& forall|t: int| 0 <= t < ps.len() ==> (#[trigger] ps[t]).ledger_id != p.ledger_id
                &&& is_genesis(p)
            },
        },
    ensures
        forall|i: int, j: int|
            pred_in_ledger(ps.push(p), i, j) ==> links_to(
                #[trigger] ps.push(p)[i],
                #[trigger] ps.push(p)[j],
            ),
        forall|j: int| first_in_ledger(ps.push(p), j) ==> is_genesis(#[trigger] ps.push(p)[j]),
{
    let qs = ps.push(p);
    let last = ps.len() as int;
    assert forall|i: int, j: int| pred_in_ledger(qs, i, j) implies links_to(
        #[trigger] qs[i],
        #[trigger] qs[j],
    ) by {
        if j < last {
            assert(forall|k: int| i < k < j ==> qs[k] == ps[k]);
            assert(pred_in_ledger(ps, i, j));
        } else {
            match head_idx {
                Option::Some(h) => {
                    if i < h {
                        assert(qs[h].ledger_id == p.ledger_id);
                        assert(false);
                    } else if i > h {
                        assert(ps[i].ledger_id != p.ledger_id);
                        assert(false);
                    }
                },
                Option::None => {
                    assert(ps[i].ledger_id != p.ledger_id);
                    assert(false);
                },
            }
        }
    }
    assert forall|j: int| first_in_ledger(qs, j) implies is_genesis(#[trigger] qs[j]) by {
        if j < last {
            assert(forall|k: int| 0 <= k < j ==> qs[k] == ps[k]);
            assert(first_in_ledger(ps, j));
        } else {
            match head_idx {
                Option::Some(h) => {
                    assert(qs[h].ledger_id == p.ledger_id);
                    assert(false);
                },
                Option::None => {},
            }
        }
    }
}

/// One ledger's chain is intact within the given log: every posting of
/// the ledger has a recomputable hash, links to its nearest predecessor
/// in the ledger, and the ledger's first posting is a genesis posting.
#[verifier::opaque]
pub open spec fn ledger_chain_ok(postings: Seq<Posting>, lines: Seq<PostingLine>, ledger_id: u128) -> bool {
    &&& forall|j: int|
        0 <= j < postings.len() && (#[trigger] postings[j]).ledger_id == ledger_id ==> hash_ok(
            postings[j],
            lines,
        )
    &&& forall|i: int, j: int|
        pred_in_ledger(postings, i, j) && (#[trigger] postings[j]).ledger_id == ledger_id
            ==> links_to(#[trigger] postings[i], postings[j])
    &&& forall|j: int|
        first_in_ledger(postings, j) && (#[trigger] postings[j]).ledger_id == ledger_id
            ==> is_genesis(postings[j])
}

/// The number of postings of the ledger among storage positions below
/// `k`.
pub open spec fn spec_in_ledger_count(postings: Seq<Posting>, ledger_id: u128, k: int) -> int
    decreases k,
{
    if k <= 0 {
        0
    } else {
        spec_in_ledger_count(postings, ledger_id, k - 1) + if postings[k - 1].ledger_id
            == ledger_id {
            1int
        } else {
            0int
        }
    }
}

/// The chain conditions at one storage position: the posting's stored
/// hash recomputes, it links to its nearest predecessor in its ledger,
/// and if it is the first of its ledger it is a genesis posting.
pub open spec fn chain_ok_at(postings: Seq<Posting>, lines: Seq<PostingLine>, j: int) -> bool {
    &&& hash_ok(postings[j], lines)
    &&& forall|i: int|
        pred_in_ledger(postings, i, j) ==> links_to(#[trigger] postings[i], postings[j])
    &&& first_in_ledger(postings, j) ==> is_genesis(postings[j])
}

/// The link and genesis clauses of `ledger_chain_ok`, restricted to the
/// postings strictly below position `k`: the verified prefix of a scan.
#[verifier::opaque]
pub open spec fn prefix_links_ok(postings: Seq<Posting>, ledger_id: u128, k: int) -> bool {
    &&& forall|i: int, j: int|
        pred_in_ledger(postings, i, j) && j < k && (#[trigger] postings[j]).ledger_id == ledger_id
            ==> links_to(#[trigger] postings[i], postings[j])
    &&& forall|j: int|
        first_in_ledger(postings, j) && j < k && (#[trigger] postings[j]).ledger_id == ledger_id
            ==> is_genesis(postings[j])
}

/// The hash clause of `ledger_chain_ok`, restricted to the postings
/// strictly below position `k`.
#[verifier::opaque]
pub open spec fn prefix_hashes_ok(
    postings: Seq<Posting>,
    lines: Seq<PostingLine>,
    ledger_id: u128,
    k: int,
) -> bool {
    forall|j: int|
        0 <= j < k && (#[trigger] postings[j]).ledger_id == ledger_id ==> hash_ok(
            postings[j],
            lines,
        )
}

/// An empty prefix is verified.
proof fn lemma_prefix_base(postings: Seq<Posting>, lines: Seq<PostingLine>, ledger_id: u128)
    ensures
        prefix_links_ok(postings, ledger_id, 0),
        prefix_hashes_ok(postings, lines, ledger_id, 0),
{
    reveal(prefix_links_ok);
    reveal(prefix_hashes_ok);
}

/// A posting of another ledger extends the verified prefix unchecked.
proof fn lemma_prefix_skip(
    postings: Seq<Posting>,
    lines: Seq<PostingLine>,
    ledger_id: u128,
    k: int,
)
    requires
        0 <= k < postings.len(),
        postings[k].ledger_id != ledger_id,
        prefix_links_ok(postings, ledger_id, k),
        prefix_hashes_ok(postings, lines, ledger_id, k),
    ensures
        prefix_links_ok(postings, ledger_id, k + 1),
        prefix_hashes_ok(postings, lines, ledger_id, k + 1),
{
    reveal(prefix_links_ok);
    reveal(prefix_hashes_ok);
}

/// One checked posting of the ledger extends the verified prefix.
proof fn lemma_prefix_step(
    postings: Seq<Posting>,
    lines: Seq<PostingLine>,
    ledger_id: u128,
    prev: Option<int>,
    k: int,
)
    requires
        0 <= k < postings.len(),
        postings[k].ledger_id == ledger_id,
        hash_ok(postings[k], lines),
        match prev {
            Option::Some(i) => {
                &&& 0 <= i < k
                &&& postings[i].ledger_id == ledger_id
                &&& forall|t: int| i < t < k ==> (#[trigger] postings[t]).ledger_id != ledger_id
                &&& links_to(postings[i], postings[k])
            },
            Option::None => {
                &&& forall|t: int| 0 <= t < k ==> (#[trigger] postings[t]).ledger_id != ledger_id
                &&& is_genesis(postings[k])
            },
        },
        prefix_links_ok(postings, ledger_id, k),
        prefix_hashes_ok(postings, lines, ledger_id, k),
    ensures
        prefix_links_ok(postings, ledger_id, k + 1),
        prefix_hashes_ok(postings, lines, ledger_id, k + 1),
{
    reveal(prefix_links_ok);
    reveal(prefix_hashes_ok);
    assert forall|i: int, j: int|
        pred_in_ledger(postings, i, j) && j < k + 1 && (#[trigger] postings[j]).ledger_id
            == ledger_id implies links_to(#[trigger] postings[i], postings[j]) by {
        if j == k {
            match prev {
                Option::Some(pi) => {
                    if i < pi {
                        assert(postings[pi].ledger_id == ledger_id);
                        assert(false);
                    } else if i > pi {
                        assert(postings[i].ledger_id != ledger_id);
                        assert(false);
                    }
                },
                Option::None => {
                    assert(postings[i].ledger_id != ledger_id);
                    assert(false);
                },
            }
        }
    }
    assert forall|j: int|
        first_in_ledger(postings, j) && j < k + 1 && (#[trigger] postings[j]).ledger_id == ledger_id
        implies is_genesis(postings[j]) by {
        if j == k {
            match prev {
                Option::Some(pi) => {
                    assert(postings[pi].ledger_id == ledger_id);
                    assert(false);
                },
                Option::None => {},
            }
        }
    }
}

/// A fully verified prefix is an intact chain.
proof fn lemma_chain_assemble(postings: Seq<Posting>, lines: Seq<PostingLine>, ledger_id: u128)
    requires
        prefix_links_ok(postings, ledger_id, postings.len() as int),
        prefix_hashes_ok(postings, lines, ledger_id, postings.len() as int),
    ensures
        ledger_chain_ok(postings, lines, ledger_id),
{
    reveal(ledger_chain_ok);
    reveal(prefix_links_ok);
    reveal(prefix_hashes_ok);
}

/// A posting of the ledger whose hash does not recompute breaks the
/// chain.
proof fn lemma_chain_broken_hash(
    postings: Seq<Posting>,
    lines: Seq<PostingLine>,
    ledger_id: u128,
    j: int,
)
    requires
        0 <= j < postings.len(),
        postings[j].ledger_id == ledger_id,
        !hash_ok(postings[j], lines),
    ensures
        !ledger_chain_ok(postings, lines, ledger_id),
{
    reveal(ledger_chain_ok);
}

/// A posting of the ledger that does not link to its nearest predecessor
/// breaks the chain.
proof fn lemma_chain_broken_link(
    postings: Seq<Posting>,
    lines: Seq<PostingLine>,
    ledger_id: u128,
    i: int,
    j: int,
)
    requires
        pred_in_ledger(postings, i, j),
        postings[j].ledger_id == ledger_id,
        !links_to(postings[i], postings[j]),
    ensures
        !ledger_chain_ok(postings, lines, ledger_id),
{
    reveal(ledger_chain_ok);
}

/// A first posting of the ledger that carries an antecedent breaks the
/// chain.
proof fn lemma_chain_broken_genesis(
    postings: Seq<Posting>,
    lines: Seq<PostingLine>,
    ledger_id: u128,
    j: int,
)
    requires
        first_in_ledger(postings, j),
        postings[j].ledger_id == ledger_id,
        !is_genesis(postings[j]),
    ensures
        !ledger_chain_ok(postings, lines, ledger_id),
{
    reveal(ledger_chain_ok);
}

/// Recomputes the content hashes of one posting's lines, in order.
fn collect_line_hashes(lines: &Vec<PostingLine>, posting_id: u128) -> (r: Vec<u64>)
    ensures
        r@ == line_hashes_of(lines@, posting_id),
{
    let mut r: Vec<u64> = Vec::new();
    let mut t: usize = 0;
    while t < lines.len()
        invariant
            0 <= t <= lines@.len(),
            r@ == line_hashes_of(lines@.take(t as int), posting_id),
        decreases lines@.len() - t,
    {
        let l = lines[t];
        if l.posting_id == posting_id {
            r.push(line_hash(l.account_id, l.debit_amount, l.credit_amount, l.pst_time, l.opr_id));
        }
        t = t + 1;
        proof {
            assert(lines@.take(t as int).drop_last() =~= lines@.take(t - 1));
            assert(lines@.take(t as int).last() == lines@[t - 1]);
            if lines@[t - 1].posting_id == posting_id {
                assert(r@ =~= line_hashes_of(lines@.take(t as int), posting_id));
            } else {
                assert(r@ =~= line_hashes_of(lines@.take(t as int), posting_id));
            }
        }
    }
    proof {
        assert(lines@.take(lines@.len() as int) =~= lines@);
    }
    r
}

/// Streams the postings of one ledger in record-time order, recomputes
/// each hash from the stored content (with its lines' content hashes
/// recomputed from the lines) and the previous hash, and fails with
/// `ChainIntegrityError` at the first mismatch, naming the offending
/// posting. Returns the number of postings checked. The log is taken as
/// plain data, so a tampered copy is detected.
#[verifier::rlimit(100)]
#[verifier::loop_isolation(true)]
pub fn verify(postings: &Vec<Posting>, lines: &Vec<PostingLine>, ledger_id: u128) -> (r: Result<
    u64,
    LedgerError,
>)
    ensures
        r is Ok <==> ledger_chain_ok(postings@, lines@, ledger_id),
        r is Ok ==> r->Ok_0 == spec_in_ledger_count(postings@, ledger_id, postings@.len() as int),
        r is Err ==> (exists|j: int|
            0 <= j < postings@.len() && (#[trigger] postings@[j]).ledger_id == ledger_id
                && r->Err_0 == (LedgerError::ChainIntegrityError { posting_id: postings@[j].id })
                && !chain_ok_at(postings@, lines@, j) && prefix_hashes_ok(
                postings@,
                lines@,
                ledger_id,
                j,
            ) && prefix_links_ok(postings@, ledger_id, j)),
{
    let mut prev: Option<usize> = None;
    let mut checked: u64 = 0;
    let mut k: usize = 0;
    proof {
        lemma_prefix_base(postings@, lines@, ledger_id);
    }
    while k < postings.len()
        invariant
            0 <= k <= postings@.len(),
            match prev {
                Some(i) => i < k && postings@[i as int].ledger_id == ledger_id && forall|t: int|
                    i < t < k ==> (#[trigger] postings@[t]).ledger_id != ledger_id,
                None => forall|t: int|
                    0 <= t < k ==> (#[trigger] postings@[t]).ledger_id != ledger_id,
            },
            prefix_links_ok(postings@, ledger_id, k as int),
            prefix_hashes_ok(postings@, lines@, ledger_id, k as int),
            checked == spec_in_ledger_count(postings@, ledger_id, k as int),
            checked <= k,
        decreases postings@.len() - k,
    {
        let p = postings[k];
        if p.ledger_id == ledger_id {
            let link_good = match prev {
                Some(i) => {
                    let q = postings[i];
                    match (p.antecedent_id, p.antecedent_hash) {
                        (Some(aid), Some(ah)) => aid == q.id && ah == q.hash,
                        _ => false,
                    }
                },
                None => p.antecedent_id.is_none() && p.antecedent_hash.is_none(),
            };
            if !link_good {
                proof {
                    match prev {
                        Some(i) => {
                            assert(pred_in_ledger(postings@, i as int, k as int));
                            assert(!links_to(postings@[i as int], postings@[k as int]));
                            lemma_chain_broken_link(
                                postings@,
                                lines@,
                                ledger_id,
                                i as int,
                                k as int,
                            );
                        },
                        None => {
                            assert(first_in_ledger(postings@, k as int));
                            assert(!is_genesis(postings@[k as int]));
                            lemma_chain_broken_genesis(postings@, lines@, ledger_id, k as int);
                        },
                    }
                    assert(!chain_ok_at(postings@, lines@, k as int));
                }
                return Err(LedgerError::ChainIntegrityError { posting_id: p.id });
            }
            let hashes = collect_line_hashes(lines, p.id);
            let h = posting_hash(
                p.ledger_id,
                p.opr_id,
                p.opr_time,
                p.pst_time,
                p.pst_type,
                p.pst_status,
                p.antecedent_hash,
                &hashes,
            );
            if h != p.hash {
                proof {
                    assert(!hash_ok(postings@[k as int], lines@));
                    assert(!chain_ok_at(postings@, lines@, k as int));
                    lemma_chain_broken_hash(postings@, lines@, ledger_id, k as int);
                }
                return Err(LedgerError::ChainIntegrityError { posting_id: p.id });
            }
            proof {
                assert(hash_ok(postings@[k as int], lines@));
                let gprev: Option<int> = match prev {
                    Some(i) => Some(i as int),
                    None => None,
                };
                lemma_prefix_step(postings@, lines@, ledger_id, gprev, k as int);
            }
            prev = Some(k);
            checked = checked + 1;
        } else {
            proof {
                lemma_prefix_skip(postings@, lines@, ledger_id, k as int);
            }
        }
        k = k + 1;
    }
    proof {
        lemma_chain_assemble(postings@, lines@, ledger_id);
    }
    Ok(checked)
}

} // verus!
