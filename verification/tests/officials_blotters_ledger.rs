use barangay_records::blotters::Blotter;
use barangay_records::errors::RepoError;
use barangay_records::ledger::LedgerEntry;
use barangay_records::officials::Official;
use barangay_records::store::Store;

fn sample_official(name: &str) -> Official {
    Official {
        id: None,
        name: name.to_string(),
        role: "Kagawad".to_string(),
        type_: "Elected".to_string(),
        section: "Peace and Order".to_string(),
        age: 45,
        contact: "09180000000".to_string(),
        term_start: "2023-01-01".to_string(),
        term_end: "2025-12-31".to_string(),
        zone: "2".to_string(),
        image: None,
    }
}

fn sample_blotter(status: &str) -> Blotter {
    Blotter {
        id: None,
        type_: "Dispute".to_string(),
        reported_by: "Juan Dela Cruz".to_string(),
        involved: "Pedro Santos".to_string(),
        incident_date: "2024-06-01".to_string(),
        location: "Zone 3".to_string(),
        zone: "3".to_string(),
        status: status.to_string(),
        narrative: "Boundary disagreement".to_string(),
        action: "Mediation scheduled".to_string(),
        witnesses: "Maria Clara".to_string(),
        evidence: "".to_string(),
        resolution: "".to_string(),
        hearing_date: "2024-06-15".to_string(),
    }
}

fn sample_entry(amount: i64, or_number: i64) -> LedgerEntry {
    LedgerEntry {
        id: None,
        type_: "Fees".to_string(),
        amount,
        or_number,
        counterparty: "Resident".to_string(),
        recorded_by: "Treasurer".to_string(),
        category: "Certification".to_string(),
        date: "2024-02-02".to_string(),
    }
}

#[test]
fn officials_round_trip() {
    let mut s = Store::new();
    let id = s.insert_official(&sample_official("Elena Santos")).unwrap();
    assert_eq!(id, 1);
    let all = s.fetch_all_officials();
    assert_eq!(all.len(), 1);
    assert_eq!(all[0].name, "Elena Santos");
    assert_eq!(all[0].id, Some(1));

    let mut changed = sample_official("Elena Santos");
    changed.id = Some(id);
    changed.role = "Captain".to_string();
    assert_eq!(s.update_official(&changed), Ok(1));
    assert_eq!(s.fetch_all_officials()[0].role, "Captain");

    s.delete_official(id);
    assert_eq!(s.fetch_all_officials().len(), 0);
    s.delete_official(id);
    assert_eq!(s.fetch_all_officials().len(), 0);
}

#[test]
fn official_update_without_id_is_a_validation_error() {
    let mut s = Store::new();
    assert_eq!(
        s.update_official(&sample_official("Elena Santos")),
        Err(RepoError::Validation)
    );
}

#[test]
fn official_update_on_nonexistent_id_reports_zero_affected_rows() {
    let mut s = Store::new();
    let mut o = sample_official("Elena Santos");
    o.id = Some(8);
    assert_eq!(s.update_official(&o), Ok(0));
}

#[test]
fn official_validation_rejects_empty_name_and_negative_age() {
    let mut s = Store::new();
    assert_eq!(s.insert_official(&sample_official("")), Err(RepoError::Validation));
    let mut o = sample_official("Elena Santos");
    o.age = -1;
    assert_eq!(s.insert_official(&o), Err(RepoError::Validation));
    let mut saved = sample_official("Elena Santos");
    saved.id = Some(3);
    assert_eq!(s.save_official(&saved), Err(RepoError::NotFound));
}

#[test]
fn blotter_insert_then_update_lifecycle() {
    let mut s = Store::new();
    let id = s.insert_blotter(&sample_blotter("Open")).unwrap();
    assert_eq!(id, 1);
    let all = s.fetch_all_blotters();
    assert_eq!(all.len(), 1);
    assert_eq!(all[0].status, "Open");

    // the partial-update path: the case moves to resolved
    let mut resolved = sample_blotter("Resolved");
    resolved.id = Some(id);
    resolved.resolution = "Settled amicably".to_string();
    assert_eq!(s.insert_or_update_blotter(&resolved), Ok(1));
    let all = s.fetch_all_blotters();
    assert_eq!(all.len(), 1);
    assert_eq!(all[0].status, "Resolved");
    assert_eq!(all[0].resolution, "Settled amicably");
}

#[test]
fn blotter_update_reports_the_affected_count() {
    let mut s = Store::new();
    let id = s.insert_blotter(&sample_blotter("Open")).unwrap();
    let mut changed = sample_blotter("For hearing");
    changed.id = Some(id);
    assert_eq!(s.update_blotter(&changed), Ok(1));
    assert_eq!(s.fetch_all_blotters()[0].status, "For hearing");
    let mut missing = sample_blotter("Open");
    missing.id = Some(50);
    assert_eq!(s.update_blotter(&missing), Ok(0));
    // a record without an id cannot name the row to replace
    assert_eq!(s.update_blotter(&sample_blotter("Open")), Err(RepoError::Validation));
}

#[test]
fn blotter_upsert_reports_a_missed_id_and_inserts_without_one() {
    let mut s = Store::new();
    let mut missing = sample_blotter("Open");
    missing.id = Some(44);
    // zero affected rows: the caller can see the update matched nothing
    assert_eq!(s.insert_or_update_blotter(&missing), Ok(0));
    assert_eq!(s.fetch_all_blotters().len(), 0);
    // without an id the upsert inserts
    assert_eq!(s.insert_or_update_blotter(&sample_blotter("Open")), Ok(1));
    assert_eq!(s.fetch_all_blotters().len(), 1);
}

#[test]
fn blotter_delete_is_idempotent() {
    let mut s = Store::new();
    let id = s.insert_blotter(&sample_blotter("Open")).unwrap();
    s.delete_blotter(id);
    s.delete_blotter(id);
    assert_eq!(s.fetch_all_blotters().len(), 0);
}

#[test]
fn ledgers_are_independent_and_round_trip() {
    let mut s = Store::new();
    let inc = s.insert_income(&sample_entry(150_000, 1001)).unwrap();
    let exp = s.insert_expense(&sample_entry(40_000, 2001)).unwrap();
    assert_eq!(inc, 1);
    assert_eq!(exp, 1);
    assert_eq!(s.fetch_all_incomes().len(), 1);
    assert_eq!(s.fetch_all_expenses().len(), 1);
    assert_eq!(s.fetch_all_incomes()[0].amount, 150_000);

    let mut changed = sample_entry(175_000, 1001);
    changed.id = Some(inc);
    assert_eq!(s.update_income(&changed), Ok(1));
    assert_eq!(s.fetch_all_incomes()[0].amount, 175_000);
    // the expense ledger is untouched by income writes
    assert_eq!(s.fetch_all_expenses()[0].amount, 40_000);

    s.delete_income(inc);
    s.delete_income(inc);
    assert_eq!(s.fetch_all_incomes().len(), 0);
    assert_eq!(s.fetch_all_expenses().len(), 1);
    s.delete_expense(exp);
    assert_eq!(s.fetch_all_expenses().len(), 0);
}

#[test]
fn ledger_validation_rejects_negative_amounts_and_receipt_numbers() {
    let mut s = Store::new();
    assert_eq!(s.insert_income(&sample_entry(-5, 1001)), Err(RepoError::Validation));
    assert_eq!(s.insert_expense(&sample_entry(10, -2)), Err(RepoError::Validation));
    let mut e = sample_entry(10, 3);
    e.id = Some(9);
    assert_eq!(s.update_expense(&e), Ok(0));
    assert_eq!(s.save_income(&e), Err(RepoError::NotFound));
}
