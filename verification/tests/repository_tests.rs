use postings_ledger::account_stmt_repository;
use postings_ledger::enums::{AccountCategory, BalanceSide, PostingStatus, PostingType, StmtStatus};
use postings_ledger::ledger_account_repository;
use postings_ledger::ledger_repository;
use postings_ledger::posting_line_repository;
use postings_ledger::posting_repository;
use postings_ledger::records::{LineInput, NewAccountStmt};
use postings_ledger::store::Store;

fn setup() -> (Store, u128, u128, u128) {
    let mut s = Store::new();
    let coa = s
        .create_chart_of_account("main".to_string(), 1, "user".to_string(), None, None)
        .unwrap();
    let ledger = s
        .create_ledger("book".to_string(), coa, 1, "user".to_string(), None, None)
        .unwrap();
    let a = s
        .create_ledger_account(
            ledger,
            "cash".to_string(),
            None,
            AccountCategory::AS,
            BalanceSide::Dr,
            1,
            "user".to_string(),
            None,
            None,
        )
        .unwrap();
    let b = s
        .create_ledger_account(
            ledger,
            "loans".to_string(),
            None,
            AccountCategory::LI,
            BalanceSide::Cr,
            1,
            "user".to_string(),
            None,
            None,
        )
        .unwrap();
    (s, ledger, a, b)
}

fn line(account_id: u128, debit: u64, credit: u64) -> LineInput {
    LineInput { account_id, debit_amount: debit, credit_amount: credit, base_line: None }
}

#[test]
fn test_find_by_id() {
    let (mut s, ledger, a, b) = setup();
    let (pid, _) = s
        .append(ledger, 1, 10, &vec![line(a, 100, 0), line(b, 0, 100)], 10,
            PostingType::BusiTx, PostingStatus::POSTED, None)
        .unwrap();
    let p = posting_repository::find_by_id(&s, pid).expect("posting must be found");
    assert_eq!(p.id, pid);
    assert_eq!(p.ledger_id, ledger);
    assert!(posting_repository::find_by_id(&s, 424242).is_none());
}

#[test]
fn test_find_by_opr_id() {
    let (mut s, ledger, a, b) = setup();
    let (p1, _) = s
        .append(ledger, 7, 10, &vec![line(a, 100, 0), line(b, 0, 100)], 10,
            PostingType::BusiTx, PostingStatus::POSTED, None)
        .unwrap();
    let found = posting_repository::find_by_opr_id(&s, 7);
    assert_eq!(found.len(), 1);
    assert_eq!(found[0].id, p1);
    assert!(posting_repository::find_by_opr_id(&s, 8).is_empty());
}

#[test]
fn test_find_by_opr_id_and_discarding_id_is_null() {
    let (mut s, ledger, a, b) = setup();
    let (p1, _) = s
        .append(ledger, 7, 10, &vec![line(a, 100, 0), line(b, 0, 100)], 10,
            PostingType::BusiTx, PostingStatus::POSTED, None)
        .unwrap();
    let p = posting_repository::find_by_opr_id_and_discarding_id_is_null(&s, 7)
        .expect("active posting must be found");
    assert_eq!(p.id, p1);
    // once superseded, the operation id has no active posting
    s.discard_and_replace(p1, 8, &vec![line(a, 50, 0), line(b, 0, 50)], 10).unwrap();
    assert!(posting_repository::find_by_opr_id_and_discarding_id_is_null(&s, 7).is_none());
    // while the audit read still finds it
    assert_eq!(posting_repository::find_by_opr_id(&s, 7).len(), 1);
}

#[test]
fn test_find_first_by_ledger_order_by_record_time_desc() {
    let (mut s, ledger, a, b) = setup();
    let (p1, _) = s
        .append(ledger, 1, 10, &vec![line(a, 100, 0), line(b, 0, 100)], 10,
            PostingType::BusiTx, PostingStatus::POSTED, None)
        .unwrap();
    let head = posting_repository::find_first_by_ledger_order_by_record_time_desc(&s, ledger)
        .expect("head must exist");
    assert_eq!(head.id, p1);
    let (p2, _) = s
        .append(ledger, 2, 20, &vec![line(a, 100, 0), line(b, 0, 100)], 20,
            PostingType::BusiTx, PostingStatus::POSTED, Some(p1))
        .unwrap();
    let head = posting_repository::find_first_by_ledger_order_by_record_time_desc(&s, ledger)
        .expect("head must exist");
    assert_eq!(head.id, p2);
}

#[test]
fn test_find_optional_by_name() {
    let (s, ledger, _, _) = setup();
    let l = ledger_repository::find_optional_by_name(&s, &"book".to_string())
        .expect("ledger must be found by name");
    assert_eq!(l.id, ledger);
    assert!(ledger_repository::find_optional_by_name(&s, &"other".to_string()).is_none());
    assert_eq!(ledger_repository::find_by_id(&s, ledger).unwrap().name, "book");
}

#[test]
fn test_find_by_ledger_and_name_ok() {
    let (s, ledger, a, _) = setup();
    let acc = ledger_account_repository::find_optional_by_ledger_and_name(
        &s,
        ledger,
        &"cash".to_string(),
    )
    .expect("Expected to find a LedgerAccount with name 'cash'");
    assert_eq!(acc.id, a);
    assert!(ledger_account_repository::find_optional_by_ledger_and_name(
        &s,
        ledger,
        &"missing".to_string()
    )
    .is_none());
    assert_eq!(ledger_account_repository::find_by_id(&s, a).unwrap().name, "cash");
}

#[test]
fn test_find_first_by_id_and_account() {
    let (mut s, ledger, a, b) = setup();
    let (pid, _) = s
        .append(ledger, 1, 10, &vec![line(a, 100, 0), line(b, 0, 100)], 10,
            PostingType::BusiTx, PostingStatus::POSTED, None)
        .unwrap();
    let first_line_id = pid + 1;
    let l = posting_line_repository::find_first_by_id_and_account(&s, first_line_id, a)
        .expect("Expected to find a posting line");
    assert_eq!(l.debit_amount, 100);
    assert_eq!(l.opr_id, 1);
    assert!(posting_line_repository::find_first_by_id_and_account(&s, first_line_id, b).is_none());
}

#[test]
fn test_find_by_account_and_pst_time_lte_and_discarded_is_null_order_by_record_time_desc() {
    let (mut s, ledger, a, b) = setup();
    let (p1, _) = s
        .append(ledger, 1, 10, &vec![line(a, 100, 0), line(b, 0, 100)], 10,
            PostingType::BusiTx, PostingStatus::POSTED, None)
        .unwrap();
    let (p2, _) = s
        .append(ledger, 2, 20, &vec![line(a, 200, 0), line(b, 0, 200)], 20,
            PostingType::BusiTx, PostingStatus::POSTED, Some(p1))
        .unwrap();
    let found =
        posting_line_repository::find_by_account_and_pst_time_lte_and_discarded_is_null_order_by_record_time_desc(
            &s, a, 30,
        );
    assert_eq!(found.len(), 2);
    // most recently recorded first
    assert_eq!(found[0].debit_amount, 200);
    assert_eq!(found[1].debit_amount, 100);
    // a superseded posting's lines drop out
    s.discard_and_replace(p2, 3, &vec![line(a, 150, 0), line(b, 0, 150)], 20).unwrap();
    let found =
        posting_line_repository::find_by_account_and_pst_time_lte_and_discarded_is_null_order_by_record_time_desc(
            &s, a, 30,
        );
    assert_eq!(found.len(), 2);
    assert_eq!(found[0].debit_amount, 150);
    assert_eq!(found[1].debit_amount, 100);
}

#[test]
fn test_find_by_base_line_and_pst_time_lte_and_discarded_is_null_order_by_record_time_desc() {
    let (mut s, ledger, a, b) = setup();
    let (p1, _) = s
        .append(ledger, 1, 10, &vec![line(a, 100, 0), line(b, 0, 100)], 10,
            PostingType::BusiTx, PostingStatus::POSTED, None)
        .unwrap();
    let a_line = p1 + 1;
    let b_line = p1 + 2;
    let corrections = vec![
        LineInput { account_id: a, debit_amount: 50, credit_amount: 0, base_line: Some(a_line) },
        LineInput { account_id: b, debit_amount: 0, credit_amount: 50, base_line: Some(b_line) },
    ];
    s.discard_and_replace(p1, 2, &corrections, 10).unwrap();
    let found =
        posting_line_repository::find_by_base_line_and_pst_time_lte_and_discarded_is_null_order_by_record_time_desc(
            &s, a_line, 30,
        );
    assert_eq!(found.len(), 1, "Expected to find 1 posting line correcting the first line");
    assert_eq!(found[0].debit_amount, 50);
    let found =
        posting_line_repository::find_by_base_line_and_pst_time_lte_and_discarded_is_null_order_by_record_time_desc(
            &s, b_line, 30,
        );
    assert_eq!(found.len(), 1, "Expected to find 1 posting line correcting the second line");
    assert_eq!(found[0].credit_amount, 50);
}

#[test]
fn test_save_account_stmt_and_find_ordered() {
    let (mut s, _ledger, a, _b) = setup();
    let st1 = account_stmt_repository::save(&mut s, NewAccountStmt { account_id: a, pst_time: 100 })
        .expect("Failed to save AccountStmt");
    assert_eq!(st1.stmt_seq_nbr, 1);
    assert_eq!(st1.stmt_status, StmtStatus::SIMULATED);
    s.close(st1.id).unwrap();
    let st2 = account_stmt_repository::save(&mut s, NewAccountStmt { account_id: a, pst_time: 200 })
        .expect("Failed to save AccountStmt");
    assert_eq!(st2.stmt_seq_nbr, 2);
    s.close(st2.id).unwrap();
    let latest = account_stmt_repository::find_first_by_account_and_stmt_status_and_pst_time_less_than_order_by_pst_time_desc_stmt_seq_nbr_desc(
        &s, a, StmtStatus::CLOSED, 300,
    )
    .expect("latest closed statement before 300 must exist");
    assert_eq!(latest.pst_time, 200);
    let earliest = account_stmt_repository::find_first_by_account_and_stmt_status_and_pst_time_gte(
        &s, a, StmtStatus::CLOSED, 150,
    )
    .expect("earliest closed statement at or after 150 must exist");
    assert_eq!(earliest.pst_time, 200);
    let none = account_stmt_repository::find_first_by_account_and_stmt_status_and_pst_time_gte(
        &s, a, StmtStatus::SIMULATED, 0,
    );
    assert!(none.is_none());
}

#[test]
fn test_find_postings_by_account_and_dates() {
    let (mut s, ledger, a, b) = setup();
    let mut head: Option<u128> = None;
    let mut pids: Vec<u128> = Vec::new();
    for i in 0..4u64 {
        let t: u64 = 10 * (i + 1);
        let (pid, _) = s
            .append(ledger, i, t, &vec![line(a, 100 + i, 0), line(b, 0, 100 + i)], t,
                PostingType::BusiTx, PostingStatus::POSTED, head)
            .unwrap();
        pids.push(pid);
        head = Some(pid);
    }
    // window (10, 30]: the postings at value times 20 and 30
    let found = posting_line_repository::find_postings_by_account_and_dates(&s, a, 10, 30);
    assert_eq!(found.len(), 2, "Expected to find 2 posting lines in the date range");
    assert_eq!(found[0].pst_time, 30);
    assert_eq!(found[1].pst_time, 20);
    // discarded posting lines are filtered out
    s.discard_and_replace(pids[2], 9, &vec![line(a, 500, 0), line(b, 0, 500)], 30).unwrap();
    let found = posting_line_repository::find_postings_by_account_and_dates(&s, a, 10, 30);
    assert_eq!(found.len(), 2, "Discarded posting lines should be filtered out");
    assert_eq!(found[0].debit_amount, 500);
    assert_eq!(found[1].pst_time, 20);
}

#[test]
fn test_discard_records_audit_traces() {
    let (mut s, ledger, a, b) = setup();
    let (p1, h1) = s
        .append(ledger, 1, 10, &vec![line(a, 100, 0), line(b, 0, 100)], 10,
            PostingType::BusiTx, PostingStatus::POSTED, None)
        .unwrap();
    assert_eq!(s.traces.len(), 0);
    let (p2, _) = s
        .discard_and_replace(p1, 2, &vec![line(a, 80, 0), line(b, 0, 80)], 10)
        .unwrap();
    // one trace per superseded line, linking the replacement to the old effect
    assert_eq!(s.traces.len(), 2);
    let tr = postings_ledger::posting_trace_repository::find_by_id(&s, s.traces[0].id)
        .expect("trace must be found");
    assert_eq!(tr.tgt_pst_id, p2);
    assert_eq!(tr.src_pst_id, p1);
    assert_eq!(tr.src_opr_id, 1);
    assert_eq!(tr.src_pst_hash, h1);
    assert_eq!(tr.account_id, a);
    assert_eq!(tr.debit_amount, 100);
    assert!(postings_ledger::posting_trace_repository::find_by_id(&s, 424242).is_none());
}

#[test]
fn test_ledger_stmt_sequence_and_finder() {
    let (mut s, ledger, _a, _b) = setup();
    let st1 = s.create_ledger_checkpoint(ledger, 100).unwrap();
    s.close_ledger_stmt(st1).unwrap();
    assert_eq!(
        s.create_ledger_checkpoint(ledger, 100),
        Err(postings_ledger::errors::LedgerError::OutOfOrderCheckpointError)
    );
    let st2 = s.create_ledger_checkpoint(ledger, 200).unwrap();
    s.close_ledger_stmt(st2).unwrap();
    let found = postings_ledger::ledger_stmt_repository::find_first_by_ledger_and_stmt_status_and_pst_time_lte_order_by_pst_time_desc_stmt_seq_nbr_desc(
        &s, ledger, StmtStatus::CLOSED, 200,
    )
    .expect("latest closed ledger statement at or before 200 must exist");
    assert_eq!(found.pst_time, 200);
    assert_eq!(found.stmt_seq_nbr, 2);
    assert_eq!(
        s.create_ledger_checkpoint(99999, 5000),
        Err(postings_ledger::errors::LedgerError::NotFoundError)
    );
}
