use postings_ledger::enums::{AccountCategory, BalanceSide, PostingStatus, PostingType};
use postings_ledger::errors::LedgerError;
use postings_ledger::records::LineInput;
use postings_ledger::store::Store;

fn setup() -> (Store, u128, u128, u128) {
    let mut s = Store::new();
    let coa = s
        .create_chart_of_account("main".to_string(), 1, "user".to_string(), None, None)
        .unwrap();
    let ledger = s
        .create_ledger("book".to_string(), coa, 1, "user".to_string(), None, None)
        .unwrap();
    let a = s
        .create_ledger_account(
            ledger,
            "a".to_string(),
            None,
            AccountCategory::AS,
            BalanceSide::Dr,
            1,
            "user".to_string(),
            None,
            None,
        )
        .unwrap();
    let b = s
        .create_ledger_account(
            ledger,
            "b".to_string(),
            None,
            AccountCategory::LI,
            BalanceSide::Cr,
            1,
            "user".to_string(),
            None,
            None,
        )
        .unwrap();
    (s, ledger, a, b)
}

fn line(account_id: u128, debit: u64, credit: u64) -> LineInput {
    LineInput { account_id, debit_amount: debit, credit_amount: credit, base_line: None }
}

/// The full correction scenario: post, read balances, checkpoint, post a
/// partial reversal, supersede it, and read the corrected balances, in
/// minor units (100.00 is written 10000).
#[test]
fn test_partial_reversal_scenario() {
    let (mut s, ledger, a, b) = setup();
    let t1: u64 = 100;
    let t2: u64 = 200;
    let (p1, _h1) = s
        .append(ledger, 1, t1, &vec![line(a, 10000, 0), line(b, 0, 10000)], t1,
            PostingType::BusiTx, PostingStatus::POSTED, None)
        .unwrap();
    let ba = s.balance_as_of(a, t1).unwrap();
    assert_eq!(ba.side, BalanceSide::Dr);
    assert_eq!(ba.net(), Some((false, 10000)));
    let bb = s.balance_as_of(b, t1).unwrap();
    assert_eq!(bb.side, BalanceSide::Cr);
    assert_eq!(bb.net(), Some((false, 10000)));
    // checkpoint for A at t1 with totals (debit=10000, credit=0), closed
    let st = s.create_checkpoint(a, t1).unwrap();
    s.close(st).unwrap();
    // partial reversal at t2
    let (p2, _h2) = s
        .append(ledger, 2, t2, &vec![line(b, 3000, 0), line(a, 0, 3000)], t2,
            PostingType::BusiTx, PostingStatus::POSTED, Some(p1))
        .unwrap();
    assert_eq!(s.balance_as_of(a, t2).unwrap().net(), Some((false, 7000)));
    // supersede the reversal with a smaller one
    let (p3, _h3) = s
        .discard_and_replace(p2, 3, &vec![line(b, 2000, 0), line(a, 0, 2000)], t2)
        .unwrap();
    assert_eq!(s.balance_as_of(a, t2).unwrap().net(), Some((false, 8000)));
    assert_eq!(s.balance_as_of(b, t2).unwrap().net(), Some((false, 8000)));
    // the superseded posting is still stored, inactive, for audit
    assert_eq!(s.is_active(p2), Ok(false));
    assert_eq!(s.is_active(p3), Ok(true));
}

/// Creating a checkpoint must never change a balance answer.
#[test]
fn test_checkpoint_does_not_change_balances() {
    let (mut s, ledger, a, b) = setup();
    let mut head: Option<u128> = None;
    for i in 0..5u64 {
        let t: u64 = 10 * (i + 1);
        let (pid, _) = s
            .append(ledger, i, t, &vec![line(a, 100 * (i + 1), 0), line(b, 0, 100 * (i + 1))], t,
                PostingType::BusiTx, PostingStatus::POSTED, head)
            .unwrap();
        head = Some(pid);
    }
    let before: Vec<Option<(bool, u128)>> =
        (1..=5u64).map(|i| s.balance_as_of(a, 10 * i).unwrap().net()).collect();
    let st = s.create_checkpoint(a, 30).unwrap();
    s.close(st).unwrap();
    let after: Vec<Option<(bool, u128)>> =
        (1..=5u64).map(|i| s.balance_as_of(a, 10 * i).unwrap().net()).collect();
    assert_eq!(before, after);
    assert_eq!(s.balance_as_of(a, 50).unwrap().net(), Some((false, 1500)));
}

#[test]
fn test_create_financial_statement_ok() {
    let (mut s, _ledger, a, _b) = setup();
    let st = s
        .create_checkpoint(a, 1000)
        .expect("Failed to save AccountStmt");
    assert!(st > a);
    s.close(st).expect("closing a simulated statement must succeed");
}

/// Statement cutoffs per owner strictly increase; a cutoff not after the
/// latest is rejected.
#[test]
fn test_checkpoint_out_of_order_rejected() {
    let (mut s, _ledger, a, _b) = setup();
    let st = s.create_checkpoint(a, 1000).unwrap();
    s.close(st).unwrap();
    assert_eq!(s.create_checkpoint(a, 1000), Err(LedgerError::OutOfOrderCheckpointError));
    assert_eq!(s.create_checkpoint(a, 999), Err(LedgerError::OutOfOrderCheckpointError));
    assert!(s.create_checkpoint(a, 1001).is_ok());
    assert_eq!(s.create_checkpoint(99999, 5000), Err(LedgerError::NotFoundError));
}

/// Posting at or before a closed cutoff of an affected account is
/// rejected: the closed totals stay authoritative.
#[test]
fn test_append_behind_closed_cutoff_rejected() {
    let (mut s, ledger, a, b) = setup();
    let st = s.create_checkpoint(a, 1000).unwrap();
    s.close(st).unwrap();
    let r = s.append(ledger, 1, 500, &vec![line(a, 100, 0), line(b, 0, 100)], 500,
        PostingType::BusiTx, PostingStatus::POSTED, None);
    assert_eq!(r, Err(LedgerError::OutOfOrderCheckpointError));
    let r = s.append(ledger, 1, 1500, &vec![line(a, 100, 0), line(b, 0, 100)], 1500,
        PostingType::BusiTx, PostingStatus::POSTED, None);
    assert!(r.is_ok());
}

#[test]
fn test_discard_missing_posting() {
    let (mut s, _ledger, a, _b) = setup();
    let r = s.discard_and_replace(424242, 9, &vec![line(a, 1, 0), line(a, 0, 1)], 10);
    assert_eq!(r, Err(LedgerError::NotFoundError));
}

#[test]
fn test_discard_twice_rejected() {
    let (mut s, ledger, a, b) = setup();
    let (p1, _) = s
        .append(ledger, 1, 10, &vec![line(a, 100, 0), line(b, 0, 100)], 10,
            PostingType::BusiTx, PostingStatus::POSTED, None)
        .unwrap();
    s.discard_and_replace(p1, 2, &vec![line(a, 50, 0), line(b, 0, 50)], 10).unwrap();
    let r = s.discard_and_replace(p1, 3, &vec![line(a, 25, 0), line(b, 0, 25)], 10);
    assert_eq!(r, Err(LedgerError::NotFoundError));
}
