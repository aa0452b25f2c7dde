use barangay_records::residents::Resident;
use barangay_records::schema::{table_catalog, Table};
use barangay_records::settings::Settings;
use barangay_records::store::Store;

fn sample_resident(first: &str, last: &str) -> Resident {
    Resident {
        id: None,
        first_name: first.to_string(),
        middle_name: None,
        last_name: last.to_string(),
        suffix: None,
        civil_status: "Single".to_string(),
        gender: "F".to_string(),
        nationality: "Filipino".to_string(),
        mobile_number: "09170000000".to_string(),
        religion: None,
        occupation: None,
        average_monthly_income: None,
        date_of_birth: "1995-11-30".to_string(),
        town_of_birth: "San Isidro".to_string(),
        province_of_birth: "Laguna".to_string(),
        zone: "5".to_string(),
        barangay: "Poblacion".to_string(),
        town: "San Isidro".to_string(),
        province: "Laguna".to_string(),
        household_number: None,
        role_in_household: "Member".to_string(),
        father_first_name: "Jose".to_string(),
        father_middle_name: None,
        father_last_name: last.to_string(),
        father_suffix: "Sr".to_string(),
        mother_first_name: "Ana".to_string(),
        mother_middle_name: None,
        mother_last_name: "Reyes".to_string(),
        status: "Active".to_string(),
        photo: None,
        is_registered_voter: false,
        is_pwd: false,
        is_senior: false,
        is_solo_parent: false,
    }
}

#[test]
fn schema_runs_twice_without_error_or_change() {
    let mut s = Store::new();
    s.ensure_schema();
    let rid = s.insert_resident(&sample_resident("Juan", "Dela Cruz")).unwrap();
    let tables_after_first = s.tables.clone();
    // a second process start converges on the same schema
    s.ensure_schema();
    assert_eq!(s.tables, tables_after_first);
    // and drops no row
    let all = s.fetch_all_residents();
    assert_eq!(all.len(), 1);
    assert_eq!(all[0].id, Some(rid));
}

#[test]
fn schema_creates_every_table_once() {
    let mut s = Store::new();
    s.ensure_schema();
    let cat = table_catalog();
    assert_eq!(s.tables.len(), cat.len());
    for t in &cat {
        assert_eq!(s.tables.iter().filter(|x| *x == t).count(), 1);
    }
}

#[test]
fn schema_keeps_existing_tables_in_place() {
    let mut s = Store::new();
    // a store from an older version that already has two tables
    s.tables.push(Table::Residents);
    s.tables.push(Table::Blotters);
    s.ensure_schema();
    assert_eq!(s.tables[0], Table::Residents);
    assert_eq!(s.tables[1], Table::Blotters);
    assert_eq!(s.tables.len(), table_catalog().len());
}

#[test]
fn catalog_orders_referenced_tables_before_dependents() {
    let cat = table_catalog();
    let pos = |t: Table| cat.iter().position(|x| *x == t).unwrap();
    assert!(pos(Table::Residents) < pos(Table::BarangayMap));
    assert!(pos(Table::Residents) < pos(Table::Certificates));
    assert!(pos(Table::Officials) < pos(Table::Logbook));
}

#[test]
fn settings_is_a_singleton() {
    let mut s = Store::new();
    assert!(s.fetch_settings().is_none());
    let first = Settings {
        barangay: Some("Poblacion".to_string()),
        municipality: Some("San Isidro".to_string()),
        province: Some("Laguna".to_string()),
        phone_number: None,
        email: None,
        logo: None,
        logo_municipality: None,
    };
    s.save_settings(&first);
    let got = s.fetch_settings().expect("saved settings are fetched");
    assert_eq!(got.barangay, Some("Poblacion".to_string()));
    // saving again replaces the one record; a second instance never exists
    let second = Settings {
        barangay: Some("Bagong Silang".to_string()),
        municipality: None,
        province: None,
        phone_number: Some("049-000-0000".to_string()),
        email: None,
        logo: None,
        logo_municipality: None,
    };
    s.save_settings(&second);
    let got = s.fetch_settings().unwrap();
    assert_eq!(got.barangay, Some("Bagong Silang".to_string()));
    assert_eq!(got.municipality, None);
    assert_eq!(got.phone_number, Some("049-000-0000".to_string()));
}
