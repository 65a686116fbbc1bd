use postings_ledger::enums::{natural_side, AccountCategory, BalanceSide, PostingStatus, PostingType};
use postings_ledger::errors::LedgerError;
use postings_ledger::hash::{digest, HASH_BASIS};
use postings_ledger::records::LineInput;
use postings_ledger::store::Store;

fn setup() -> (Store, u128, u128, u128) {
    let mut s = Store::new();
    let coa = s
        .create_chart_of_account("main".to_string(), 1, "user".to_string(), None, None)
        .unwrap();
    let ledger = s
        .create_ledger("book".to_string(), coa, 1, "user".to_string(), None, None)
        .unwrap();
    let a = s
        .create_ledger_account(
            ledger,
            "cash".to_string(),
            None,
            AccountCategory::AS,
            BalanceSide::Dr,
            1,
            "user".to_string(),
            None,
            None,
        )
        .unwrap();
    let b = s
        .create_ledger_account(
            ledger,
            "loans".to_string(),
            None,
            AccountCategory::LI,
            BalanceSide::Cr,
            1,
            "user".to_string(),
            None,
            None,
        )
        .unwrap();
    (s, ledger, a, b)
}

fn line(account_id: u128, debit: u64, credit: u64) -> LineInput {
    LineInput { account_id, debit_amount: debit, credit_amount: credit, base_line: None }
}

#[test]
fn test_create_coa_ok() {
    let mut s = Store::new();
    let id = s
        .create_chart_of_account(
            "UniqueCoAName".to_string(),
            1627833600,
            "francis".to_string(),
            Some("Sample chart of account".to_string()),
            None,
        )
        .expect("Failed to create ChartOfAccount");
    assert_eq!(id, 0);
}

#[test]
fn test_create_coa_unique_constrain_violation_name() {
    let mut s = Store::new();
    s.create_chart_of_account("UniqueCoAName".to_string(), 1, "francis".to_string(), None, None)
        .unwrap();
    let r = s.create_chart_of_account(
        "UniqueCoAName".to_string(),
        2,
        "francis".to_string(),
        None,
        None,
    );
    assert_eq!(r, Err(LedgerError::DuplicateNameError));
}

#[test]
fn test_create_ledger_account_ok() {
    let (mut s, ledger, a, _) = setup();
    let child = s
        .create_ledger_account(
            ledger,
            "petty cash".to_string(),
            Some(a),
            AccountCategory::AS,
            BalanceSide::Dr,
            1,
            "Sample User".to_string(),
            Some("Long lasting liability".to_string()),
            None,
        )
        .expect("Failed to save LedgerAccount");
    assert!(child > a);
    assert_eq!(s.children_of(a), vec![child]);
}

#[test]
fn test_create_ledger_account_no_ledger() {
    let mut s = Store::new();
    let r = s.create_ledger_account(
        999,
        "Sample Ledger Account".to_string(),
        None,
        AccountCategory::AS,
        BalanceSide::Dr,
        1,
        "Sample User".to_string(),
        None,
        None,
    );
    assert_eq!(r, Err(LedgerError::NotFoundError));
}

#[test]
fn test_create_ledger_account_unique_constrain_violation_ledger_name_valid_from() {
    let (mut s, ledger, _, _) = setup();
    let r = s.create_ledger_account(
        ledger,
        "cash".to_string(),
        None,
        AccountCategory::AS,
        BalanceSide::Dr,
        1,
        "Sample User".to_string(),
        None,
        None,
    );
    assert_eq!(r, Err(LedgerError::DuplicateNameError));
}

#[test]
fn test_append_balanced_posting() {
    let (mut s, ledger, a, b) = setup();
    let inputs = vec![line(a, 10000, 0), line(b, 0, 10000)];
    let (pid, hash) = s
        .append(ledger, 1, 100, &inputs, 100, PostingType::BusiTx, PostingStatus::POSTED, None)
        .expect("balanced posting must append");
    assert_eq!(s.is_active(pid), Ok(true));
    assert_ne!(hash, 0);
}

#[test]
fn test_append_unbalanced_posting_rejected() {
    let (mut s, ledger, a, b) = setup();
    let inputs = vec![line(a, 10000, 0), line(b, 0, 9999)];
    let r = s.append(ledger, 1, 100, &inputs, 100, PostingType::BusiTx, PostingStatus::POSTED, None);
    assert_eq!(r, Err(LedgerError::UnbalancedPostingError));
    let empty: Vec<LineInput> = vec![];
    let r = s.append(ledger, 1, 100, &empty, 100, PostingType::BusiTx, PostingStatus::POSTED, None);
    assert_eq!(r, Err(LedgerError::UnbalancedPostingError));
    let both = vec![line(a, 5, 5), line(b, 0, 0)];
    let r = s.append(ledger, 1, 100, &both, 100, PostingType::BusiTx, PostingStatus::POSTED, None);
    assert_eq!(r, Err(LedgerError::UnbalancedPostingError));
}

#[test]
fn test_append_duplicate_operation_rejected() {
    let (mut s, ledger, a, b) = setup();
    let inputs = vec![line(a, 100, 0), line(b, 0, 100)];
    let (pid, h) = s
        .append(ledger, 7, 1, &inputs, 10, PostingType::BusiTx, PostingStatus::POSTED, None)
        .unwrap();
    let r = s.append(ledger, 7, 2, &inputs, 20, PostingType::BusiTx, PostingStatus::POSTED, Some(pid));
    assert_eq!(r, Err(LedgerError::DuplicateOperationError));
    let _ = h;
}

#[test]
fn test_append_unknown_account_rejected() {
    let (mut s, ledger, a, _) = setup();
    let inputs = vec![line(a, 100, 0), line(424242, 0, 100)];
    let r = s.append(ledger, 1, 1, &inputs, 10, PostingType::BusiTx, PostingStatus::POSTED, None);
    assert_eq!(r, Err(LedgerError::NotFoundError));
}

#[test]
fn test_append_chain_conflict_rejected() {
    let (mut s, ledger, a, b) = setup();
    let inputs = vec![line(a, 100, 0), line(b, 0, 100)];
    let (pid, _) = s
        .append(ledger, 1, 1, &inputs, 10, PostingType::BusiTx, PostingStatus::POSTED, None)
        .unwrap();
    // a second append that still claims the ledger is empty must conflict
    let r = s.append(ledger, 2, 2, &inputs, 20, PostingType::BusiTx, PostingStatus::POSTED, None);
    assert_eq!(r, Err(LedgerError::ChainConflictError));
    // observing the current head succeeds
    let r = s.append(ledger, 2, 2, &inputs, 20, PostingType::BusiTx, PostingStatus::POSTED, Some(pid));
    assert!(r.is_ok());
}

#[test]
fn test_digest_known_value() {
    let words: Vec<u64> = vec![7, 11, 13];
    assert_eq!(digest(&words), 0xbf686e185d6b6eee);
    let empty: Vec<u64> = vec![];
    assert_eq!(digest(&empty), HASH_BASIS);
}

#[test]
fn test_natural_side() {
    assert_eq!(natural_side(AccountCategory::RE), BalanceSide::Cr);
    assert_eq!(natural_side(AccountCategory::EX), BalanceSide::Dr);
    assert_eq!(natural_side(AccountCategory::AS), BalanceSide::Dr);
    assert_eq!(natural_side(AccountCategory::NOOP), BalanceSide::DrCr);
}

#[test]
fn test_is_active_missing_posting() {
    let s = Store::new();
    assert_eq!(s.is_active(5), Err(LedgerError::NotFoundError));
}

#[test]
fn test_verify_chain_round_trip() {
    let (mut s, ledger, a, b) = setup();
    let mut head: Option<u128> = None;
    for i in 0..3u64 {
        let (pid, _) = s
            .append(ledger, i, 10 * i, &vec![line(a, 100, 0), line(b, 0, 100)], 10 * i,
                PostingType::BusiTx, PostingStatus::POSTED, head)
            .unwrap();
        head = Some(pid);
    }
    assert_eq!(postings_ledger::chain::verify(&s.postings, &s.lines, ledger), Ok(3));
}

#[test]
fn test_verify_chain_detects_tampered_amount() {
    let (mut s, ledger, a, b) = setup();
    let (pid, _) = s
        .append(ledger, 1, 10, &vec![line(a, 100, 0), line(b, 0, 100)], 10,
            PostingType::BusiTx, PostingStatus::POSTED, None)
        .unwrap();
    let postings = s.postings.clone();
    let mut lines = s.lines.clone();
    lines[0].debit_amount = 999;
    let r = postings_ledger::chain::verify(&postings, &lines, ledger);
    assert_eq!(r, Err(LedgerError::ChainIntegrityError { posting_id: pid }));
}

#[test]
fn test_verify_chain_detects_broken_link() {
    let (mut s, ledger, a, b) = setup();
    let (p1, _) = s
        .append(ledger, 1, 10, &vec![line(a, 100, 0), line(b, 0, 100)], 10,
            PostingType::BusiTx, PostingStatus::POSTED, None)
        .unwrap();
    let (p2, _) = s
        .append(ledger, 2, 20, &vec![line(a, 100, 0), line(b, 0, 100)], 20,
            PostingType::BusiTx, PostingStatus::POSTED, Some(p1))
        .unwrap();
    let mut postings = s.postings.clone();
    postings[1].antecedent_hash = Some(postings[1].antecedent_hash.unwrap() ^ 1);
    let r = postings_ledger::chain::verify(&postings, &s.lines, ledger);
    assert_eq!(r, Err(LedgerError::ChainIntegrityError { posting_id: p2 }));
}
