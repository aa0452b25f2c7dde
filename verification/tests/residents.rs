use barangay_records::errors::RepoError;
use barangay_records::residents::Resident;
use barangay_records::store::Store;

fn sample_resident(first: &str, last: &str, role: &str, hh: Option<&str>, income: Option<i64>) -> Resident {
    Resident {
        id: None,
        first_name: first.to_string(),
        middle_name: None,
        last_name: last.to_string(),
        suffix: None,
        civil_status: "Single".to_string(),
        gender: "F".to_string(),
        nationality: "Filipino".to_string(),
        mobile_number: "09170000000".to_string(),
        religion: Some("Catholic".to_string()),
        occupation: Some("Teacher".to_string()),
        average_monthly_income: income,
        date_of_birth: "1990-05-04".to_string(),
        town_of_birth: "San Isidro".to_string(),
        province_of_birth: "Laguna".to_string(),
        zone: "2".to_string(),
        barangay: "Poblacion".to_string(),
        town: "San Isidro".to_string(),
        province: "Laguna".to_string(),
        household_number: hh.map(|s| s.to_string()),
        role_in_household: role.to_string(),
        father_first_name: "Jose".to_string(),
        father_middle_name: None,
        father_last_name: last.to_string(),
        father_suffix: "Sr".to_string(),
        mother_first_name: "Ana".to_string(),
        mother_middle_name: None,
        mother_last_name: "Reyes".to_string(),
        status: "Active".to_string(),
        photo: None,
        is_registered_voter: true,
        is_pwd: false,
        is_senior: false,
        is_solo_parent: false,
    }
}

fn same_record_except_id(a: &Resident, b: &Resident) -> bool {
    a.first_name == b.first_name
        && a.middle_name == b.middle_name
        && a.last_name == b.last_name
        && a.suffix == b.suffix
        && a.civil_status == b.civil_status
        && a.gender == b.gender
        && a.nationality == b.nationality
        && a.mobile_number == b.mobile_number
        && a.religion == b.religion
        && a.occupation == b.occupation
        && a.average_monthly_income == b.average_monthly_income
        && a.date_of_birth == b.date_of_birth
        && a.town_of_birth == b.town_of_birth
        && a.province_of_birth == b.province_of_birth
        && a.zone == b.zone
        && a.barangay == b.barangay
        && a.town == b.town
        && a.province == b.province
        && a.household_number == b.household_number
        && a.role_in_household == b.role_in_household
        && a.father_first_name == b.father_first_name
        && a.father_middle_name == b.father_middle_name
        && a.father_last_name == b.father_last_name
        && a.father_suffix == b.father_suffix
        && a.mother_first_name == b.mother_first_name
        && a.mother_middle_name == b.mother_middle_name
        && a.mother_last_name == b.mother_last_name
        && a.status == b.status
        && a.photo == b.photo
        && a.is_registered_voter == b.is_registered_voter
        && a.is_pwd == b.is_pwd
        && a.is_senior == b.is_senior
        && a.is_solo_parent == b.is_solo_parent
}

#[test]
fn insert_then_fetch_all_contains_the_record() {
    let mut s = Store::new();
    s.ensure_schema();
    let r = sample_resident("Juan", "Dela Cruz", "Head", Some("HH1"), Some(5000));
    let id = s.insert_resident(&r).expect("valid record inserts");
    assert_eq!(id, 1);
    let all = s.fetch_all_residents();
    assert_eq!(all.len(), 1);
    assert_eq!(all[0].id, Some(id));
    assert!(same_record_except_id(&all[0], &r));
}

#[test]
fn insert_assigns_increasing_ids() {
    let mut s = Store::new();
    let a = s.insert_resident(&sample_resident("A", "One", "Head", None, None)).unwrap();
    let b = s.insert_resident(&sample_resident("B", "Two", "Member", None, None)).unwrap();
    assert_eq!(a, 1);
    assert_eq!(b, 2);
    assert_eq!(s.fetch_all_residents().len(), 2);
}

#[test]
fn insert_rejects_unrecognized_role() {
    let mut s = Store::new();
    let r = sample_resident("Juan", "Dela Cruz", "Lodger", None, None);
    assert_eq!(s.insert_resident(&r), Err(RepoError::Validation));
    assert_eq!(s.fetch_all_residents().len(), 0);
}

#[test]
fn insert_rejects_negative_income() {
    let mut s = Store::new();
    let r = sample_resident("Juan", "Dela Cruz", "Head", Some("HH1"), Some(-1));
    assert_eq!(s.insert_resident(&r), Err(RepoError::Validation));
}

#[test]
fn insert_rejects_missing_name_parts() {
    let mut s = Store::new();
    let r = sample_resident("", "Dela Cruz", "Head", None, None);
    assert_eq!(s.insert_resident(&r), Err(RepoError::Validation));
    let r2 = sample_resident("Juan", "", "Head", None, None);
    assert_eq!(s.insert_resident(&r2), Err(RepoError::Validation));
}

#[test]
fn update_on_nonexistent_id_reports_zero_affected_rows() {
    let mut s = Store::new();
    s.insert_resident(&sample_resident("Juan", "Dela Cruz", "Head", None, None)).unwrap();
    let mut ghostly = sample_resident("Maria", "Clara", "Member", None, None);
    ghostly.id = Some(99);
    let affected = s.update_resident(&ghostly).expect("a well-formed update runs");
    assert_eq!(affected, 0);
    // the no-op update left the store as it was
    let all = s.fetch_all_residents();
    assert_eq!(all.len(), 1);
    assert_eq!(all[0].first_name, "Juan");
}

#[test]
fn update_replaces_the_whole_record() {
    let mut s = Store::new();
    let id = s.insert_resident(&sample_resident("Juan", "Dela Cruz", "Head", None, None)).unwrap();
    let mut changed = sample_resident("Juan", "Dela Cruz", "Head", Some("HH9"), Some(1234));
    changed.id = Some(id);
    let affected = s.update_resident(&changed).unwrap();
    assert_eq!(affected, 1);
    let all = s.fetch_all_residents();
    assert_eq!(all[0].household_number, Some("HH9".to_string()));
    assert_eq!(all[0].average_monthly_income, Some(1234));
}

#[test]
fn update_without_id_is_a_validation_error() {
    let mut s = Store::new();
    let r = sample_resident("Juan", "Dela Cruz", "Head", None, None);
    assert_eq!(s.update_resident(&r), Err(RepoError::Validation));
}

#[test]
fn delete_by_id_is_idempotent() {
    let mut s = Store::new();
    let id = s.insert_resident(&sample_resident("Juan", "Dela Cruz", "Head", None, None)).unwrap();
    s.delete_resident(id);
    assert_eq!(s.fetch_all_residents().len(), 0);
    // deleting the same id again matches zero rows and succeeds silently
    s.delete_resident(id);
    assert_eq!(s.fetch_all_residents().len(), 0);
    // deleting an id that never existed also succeeds
    s.delete_resident(424242);
}

#[test]
fn delete_keeps_the_other_records_in_order() {
    let mut s = Store::new();
    let a = s.insert_resident(&sample_resident("A", "One", "Head", None, None)).unwrap();
    let b = s.insert_resident(&sample_resident("B", "Two", "Member", None, None)).unwrap();
    let c = s.insert_resident(&sample_resident("C", "Three", "Member", None, None)).unwrap();
    s.delete_resident(b);
    let all = s.fetch_all_residents();
    assert_eq!(all.len(), 2);
    assert_eq!(all[0].id, Some(a));
    assert_eq!(all[1].id, Some(c));
}

#[test]
fn save_routes_on_id_presence() {
    let mut s = Store::new();
    // no id: insert
    s.save_resident(&sample_resident("Juan", "Dela Cruz", "Head", None, None)).unwrap();
    assert_eq!(s.fetch_all_residents().len(), 1);
    // with a stored id: update
    let mut again = sample_resident("Juan", "Dela Cruz", "Head", Some("HH3"), None);
    again.id = Some(1);
    s.save_resident(&again).unwrap();
    let all = s.fetch_all_residents();
    assert_eq!(all.len(), 1);
    assert_eq!(all[0].household_number, Some("HH3".to_string()));
}

#[test]
fn insert_reports_an_exhausted_id_space_as_a_store_error() {
    let mut s = Store::new();
    s.next_resident_id = i32::MAX;
    let r = sample_resident("Juan", "Dela Cruz", "Head", None, None);
    assert_eq!(s.insert_resident(&r), Err(RepoError::Store));
    assert_eq!(s.fetch_all_residents().len(), 0);
}

#[test]
fn save_reports_a_missed_id_as_not_found() {
    let mut s = Store::new();
    let mut r = sample_resident("Juan", "Dela Cruz", "Head", None, None);
    r.id = Some(5);
    assert_eq!(s.save_resident(&r), Err(RepoError::NotFound));
    assert_eq!(s.fetch_all_residents().len(), 0);
}
