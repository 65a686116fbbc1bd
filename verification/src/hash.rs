//! The tamper-evidence digest.
//!
//! A posting's hash is a deterministic digest over its antecedent's hash
//! and its serialized content (header fields followed by the content
//! hashes of its lines), so the whole chain from genesis can be recomputed
//! and held against the stored hashes. The digest folds 64-bit words with
//! an xor-multiply step over fixed constants.

use vstd::prelude::*;

use crate::enums::{PostingStatus, PostingType};
use crate::records::{Posting, PostingLine};

verus! {

/// Starting value of the word fold.
pub const HASH_BASIS: u64 = 0xcbf29ce484222325;

/// Multiplier of the word fold.
pub const HASH_PRIME: u64 = 0x100000001b3;

/// One fold step: xor the word in, then multiply (wrapping).
pub open spec fn spec_mix(h: u64, w: u64) -> u64 {
    vstd::wrapping::u64_specs::wrapping_mul(h ^ w, HASH_PRIME)
}

/// The digest of a word sequence: the fold of `spec_mix` from the basis.
#[verifier::opaque]
pub open spec fn spec_digest(words: Seq<u64>) -> u64
    decreases words.len(),
{
    if words.len() == 0 {
        HASH_BASIS
    } else {
        spec_mix(spec_digest(words.drop_last()), words.last())
    }
}

/// Computes the digest of `words`.
pub fn digest(words: &Vec<u64>) -> (h: u64)
    ensures
        h == spec_digest(words@),
{
    let mut h: u64 = HASH_BASIS;
    let mut i: usize = 0;
    proof {
        reveal_with_fuel(spec_digest, 1);
        assert(words@.take(0) =~= Seq::<u64>::empty());
    }
    while i < words.len()
        invariant
            0 <= i <= words@.len(),
            h == spec_digest(words@.take(i as int)),
        decreases words@.len() - i,
    {
        let w = words[i];
        h = (h ^ w).wrapping_mul(HASH_PRIME);
        i = i + 1;
        proof {
            reveal_with_fuel(spec_digest, 2);
            assert(words@.take(i as int).drop_last() =~= words@.take(i - 1));
            assert(words@.take(i as int).last() == words@[i - 1]);
        }
    }
    proof {
        assert(words@.take(words@.len() as int) =~= words@);
    }
    h
}

/// The high 64 bits of a 128-bit value.
pub open spec fn spec_hi64(x: u128) -> u64 {
    (x / 0x10000000000000000) as u64
}

/// The low 64 bits of a 128-bit value.
pub open spec fn spec_lo64(x: u128) -> u64 {
    (x % 0x10000000000000000) as u64
}

/// Splits a 128-bit value into its high and low 64-bit halves.
pub fn split_u128(x: u128) -> (r: (u64, u64))
    ensures
        r.0 == spec_hi64(x),
        r.1 == spec_lo64(x),
{
    proof {
        assert(x / 0x10000000000000000 < 0x10000000000000000) by (nonlinear_arith)
            requires x <= u128::MAX,
        ;
    }
    let hi = (x / 0x10000000000000000) as u64;
    let lo = (x % 0x10000000000000000) as u64;
    (hi, lo)
}

/// A distinct word for each posting type.
pub open spec fn spec_type_code(t: PostingType) -> u64 {
    match t {
        PostingType::BusiTx => 1,
        PostingType::AdjTx => 2,
        PostingType::BalStmt => 3,
        PostingType::PnLStmt => 4,
        PostingType::BsStmt => 5,
        PostingType::LdgClsng => 6,
    }
}

/// Returns the word standing for `t` in a digest.
pub fn type_code(t: PostingType) -> (r: u64)
    ensures
        r == spec_type_code(t),
{
    match t {
        PostingType::BusiTx => 1,
        PostingType::AdjTx => 2,
        PostingType::BalStmt => 3,
        PostingType::PnLStmt => 4,
        PostingType::BsStmt => 5,
        PostingType::LdgClsng => 6,
    }
}

/// A distinct word for each posting status.
pub open spec fn spec_status_code(s: PostingStatus) -> u64 {
    match s {
        PostingStatus::DEFERRED => 1,
        PostingStatus::POSTED => 2,
        PostingStatus::PROPOSED => 3,
        PostingStatus::SIMULATED => 4,
        PostingStatus::TAX => 5,
        PostingStatus::UNPOSTED => 6,
        PostingStatus::CANCELLED => 7,
        PostingStatus::OTHER => 8,
    }
}

/// Returns the word standing for `s` in a digest.
pub fn status_code(s: PostingStatus) -> (r: u64)
    ensures
        r == spec_status_code(s),
{
    match s {
        PostingStatus::DEFERRED => 1,
        PostingStatus::POSTED => 2,
        PostingStatus::PROPOSED => 3,
        PostingStatus::SIMULATED => 4,
        PostingStatus::TAX => 5,
        PostingStatus::UNPOSTED => 6,
        PostingStatus::CANCELLED => 7,
        PostingStatus::OTHER => 8,
    }
}

/// The serialized content of a line: the account effect and the value
/// time. Mutable bookkeeping (the discard marker) and store-assigned
/// identities stay out, so the hash of a line never changes after it is
/// written.
pub open spec fn spec_line_words(
    account_id: u128,
    debit_amount: u64,
    credit_amount: u64,
    pst_time: u64,
    opr_id: u64,
) -> Seq<u64> {
    seq![
        spec_hi64(account_id),
        spec_lo64(account_id),
        debit_amount,
        credit_amount,
        pst_time,
        opr_id,
    ]
}

/// The content hash of a line.
pub open spec fn spec_line_hash(l: PostingLine) -> u64 {
    spec_digest(spec_line_words(l.account_id, l.debit_amount, l.credit_amount, l.pst_time, l.opr_id))
}

/// Computes the content hash of a line from its content fields.
pub fn line_hash(
    account_id: u128,
    debit_amount: u64,
    credit_amount: u64,
    pst_time: u64,
    opr_id: u64,
) -> (h: u64)
    ensures
        h == spec_digest(spec_line_words(account_id, debit_amount, credit_amount, pst_time, opr_id)),
{
    let (hi, lo) = split_u128(account_id);
    let mut words: Vec<u64> = Vec::new();
    words.push(hi);
    words.push(lo);
    words.push(debit_amount);
    words.push(credit_amount);
    words.push(pst_time);
    words.push(opr_id);
    proof {
        assert(words@ =~= spec_line_words(account_id, debit_amount, credit_amount, pst_time, opr_id));
    }
    digest(&words)
}

/// The serialized content of a posting: the antecedent hash (tagged so a
/// genesis posting differs from one with antecedent hash zero), the header
/// fields, and the content hashes of the posting's lines in order.
pub open spec fn spec_posting_words(
    ledger_id: u128,
    opr_id: u64,
    opr_time: u64,
    pst_time: u64,
    pst_type: PostingType,
    pst_status: PostingStatus,
    antecedent_hash: Option<u64>,
    line_hashes: Seq<u64>,
) -> Seq<u64> {
    seq![
        match antecedent_hash {
            Option::Some(_) => 1u64,
            Option::None => 0u64,
        },
        match antecedent_hash {
            Option::Some(h) => h,
            Option::None => 0u64,
        },
        spec_hi64(ledger_id),
        spec_lo64(ledger_id),
        opr_id,
        opr_time,
        pst_time,
        spec_type_code(pst_type),
        spec_status_code(pst_status),
    ] + line_hashes
}

/// The content hash of a posting, given the content hashes of its lines.
pub open spec fn spec_posting_hash(p: Posting, line_hashes: Seq<u64>) -> u64 {
    spec_digest(spec_posting_words(
        p.ledger_id,
        p.opr_id,
        p.opr_time,
        p.pst_time,
        p.pst_type,
        p.pst_status,
        p.antecedent_hash,
        line_hashes,
    ))
}

/// Computes the content hash of a posting from its content fields and the
/// content hashes of its lines.
pub fn posting_hash(
    ledger_id: u128,
    opr_id: u64,
    opr_time: u64,
    pst_time: u64,
    pst_type: PostingType,
    pst_status: PostingStatus,
    antecedent_hash: Option<u64>,
    line_hashes: &Vec<u64>,
) -> (h: u64)
    ensures
        h == spec_digest(spec_posting_words(
            ledger_id,
            opr_id,
            opr_time,
            pst_time,
            pst_type,
            pst_status,
            antecedent_hash,
            line_hashes@,
        )),
{
    let (hi, lo) = split_u128(ledger_id);
    let mut words: Vec<u64> = Vec::new();
    match antecedent_hash {
        Option::Some(h) => {
            words.push(1);
            words.push(h);
        },
        Option::None => {
            words.push(0);
            words.push(0);
        },
    }
    words.push(hi);
    words.push(lo);
    words.push(opr_id);
    words.push(opr_time);
    words.push(pst_time);
    words.push(type_code(pst_type));
    words.push(status_code(pst_status));
    let mut i: usize = 0;
    while i < line_hashes.len()
        invariant
            0 <= i <= line_hashes@.len(),
            words@ =~= spec_posting_words(
                ledger_id,
                opr_id,
                opr_time,
                pst_time,
                pst_type,
                pst_status,
                antecedent_hash,
                line_hashes@.take(i as int),
            ),
        decreases line_hashes@.len() - i,
    {
        words.push(line_hashes[i]);
        i = i + 1;
        proof {
            assert(line_hashes@.take(i as int) =~= line_hashes@.take(i - 1).push(line_hashes@[i - 1]));
        }
    }
    proof {
        assert(line_hashes@.take(line_hashes@.len() as int) =~= line_hashes@);
    }
    digest(&words)
}

} // verus!
