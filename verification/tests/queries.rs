use barangay_records::residents::Resident;
use barangay_records::store::Store;

fn sample_resident(first: &str, last: &str, role: &str, hh: Option<&str>, income: Option<i64>) -> Resident {
    Resident {
        id: None,
        first_name: first.to_string(),
        middle_name: None,
        last_name: last.to_string(),
        suffix: None,
        civil_status: "Married".to_string(),
        gender: "M".to_string(),
        nationality: "Filipino".to_string(),
        mobile_number: "09170000000".to_string(),
        religion: None,
        occupation: None,
        average_monthly_income: income,
        date_of_birth: "1980-01-15".to_string(),
        town_of_birth: "San Isidro".to_string(),
        province_of_birth: "Laguna".to_string(),
        zone: "4".to_string(),
        barangay: "Poblacion".to_string(),
        town: "San Isidro".to_string(),
        province: "Laguna".to_string(),
        household_number: hh.map(|s| s.to_string()),
        role_in_household: role.to_string(),
        father_first_name: "Jose".to_string(),
        father_middle_name: None,
        father_last_name: last.to_string(),
        father_suffix: "Sr".to_string(),
        mother_first_name: "Ana".to_string(),
        mother_middle_name: None,
        mother_last_name: "Reyes".to_string(),
        status: "Active".to_string(),
        photo: None,
        is_registered_voter: true,
        is_pwd: false,
        is_senior: false,
        is_solo_parent: false,
    }
}

#[test]
fn household_heads_returns_only_heads() {
    let mut s = Store::new();
    s.insert_resident(&sample_resident("Juan", "Dela Cruz", "Head", Some("HH1"), None)).unwrap();
    // same household number, but not a head: excluded
    s.insert_resident(&sample_resident("Maria", "Dela Cruz", "Spouse", Some("HH1"), None)).unwrap();
    s.insert_resident(&sample_resident("Pedro", "Santos", "Member", Some("HH2"), None)).unwrap();
    s.insert_resident(&sample_resident("Elena", "Santos", "Head", Some("HH2"), None)).unwrap();
    let heads = s.household_heads();
    assert_eq!(heads.len(), 2);
    assert_eq!(heads[0].first_name, "Juan");
    assert_eq!(heads[0].household_number, "HH1");
    assert_eq!(heads[0].id, Some(1));
    assert_eq!(heads[1].first_name, "Elena");
    assert_eq!(heads[1].household_number, "HH2");
}

#[test]
fn household_heads_of_an_empty_store_is_empty() {
    let s = Store::new();
    assert_eq!(s.household_heads().len(), 0);
}

#[test]
fn residents_by_household_filters_on_equality() {
    let mut s = Store::new();
    s.insert_resident(&sample_resident("Juan", "Dela Cruz", "Head", Some("HH1"), None)).unwrap();
    s.insert_resident(&sample_resident("Maria", "Dela Cruz", "Spouse", Some("HH1"), None)).unwrap();
    s.insert_resident(&sample_resident("Pedro", "Santos", "Head", Some("HH2"), None)).unwrap();
    s.insert_resident(&sample_resident("Nena", "Lopez", "Head", None, None)).unwrap();
    let hh1 = s.residents_by_household("HH1");
    assert_eq!(hh1.len(), 2);
    assert_eq!(hh1[0].first_name, "Juan");
    assert_eq!(hh1[1].first_name, "Maria");
    assert_eq!(s.residents_by_household("HH2").len(), 1);
    assert_eq!(s.residents_by_household("HH3").len(), 0);
}

#[test]
fn household_income_totals_groups_and_sums() {
    let mut s = Store::new();
    s.insert_resident(&sample_resident("Juan", "Dela Cruz", "Head", Some("HH1"), Some(5000))).unwrap();
    s.insert_resident(&sample_resident("Maria", "Dela Cruz", "Spouse", Some("HH1"), Some(3000))).unwrap();
    s.insert_resident(&sample_resident("Pedro", "Santos", "Head", Some("HH2"), Some(7000))).unwrap();
    // no household number: excluded from the totals
    s.insert_resident(&sample_resident("Nena", "Lopez", "Head", None, Some(9999))).unwrap();
    let totals = s.household_income_totals();
    assert_eq!(totals.len(), 2);
    assert_eq!(totals[0].0, "HH1");
    assert_eq!(totals[0].1, 8000);
    assert_eq!(totals[1].0, "HH2");
    assert_eq!(totals[1].1, 7000);
}

#[test]
fn household_income_totals_counts_missing_income_as_zero() {
    let mut s = Store::new();
    s.insert_resident(&sample_resident("Juan", "Dela Cruz", "Head", Some("HH1"), Some(5000))).unwrap();
    s.insert_resident(&sample_resident("Maria", "Dela Cruz", "Spouse", Some("HH1"), None)).unwrap();
    let totals = s.household_income_totals();
    assert_eq!(totals.len(), 1);
    assert_eq!(totals[0].1, 5000);
}

#[test]
fn household_income_totals_pins_at_the_integer_maximum() {
    let mut s = Store::new();
    s.insert_resident(&sample_resident("Juan", "Dela Cruz", "Head", Some("HH1"), Some(i64::MAX))).unwrap();
    s.insert_resident(&sample_resident("Maria", "Dela Cruz", "Spouse", Some("HH1"), Some(1))).unwrap();
    let totals = s.household_income_totals();
    assert_eq!(totals.len(), 1);
    assert_eq!(totals[0].1, i64::MAX);
}

#[test]
fn households_with_pwd_lists_distinct_household_numbers() {
    let mut s = Store::new();
    let mut a = sample_resident("Juan", "Dela Cruz", "Head", Some("HH1"), None);
    a.is_pwd = true;
    let mut b = sample_resident("Maria", "Dela Cruz", "Spouse", Some("HH1"), None);
    b.is_pwd = true;
    let mut c = sample_resident("Pedro", "Santos", "Head", Some("HH2"), None);
    c.is_pwd = true;
    // flagged but with no household number: excluded
    let mut d = sample_resident("Nena", "Lopez", "Head", None, None);
    d.is_pwd = true;
    // not flagged: excluded
    let e = sample_resident("Luis", "Ramos", "Head", Some("HH3"), None);
    for r in [&a, &b, &c, &d, &e] {
        s.insert_resident(r).unwrap();
    }
    let hh = s.households_with_pwd();
    assert_eq!(hh, vec!["HH1".to_string(), "HH2".to_string()]);
}

#[test]
fn households_with_senior_lists_distinct_household_numbers() {
    let mut s = Store::new();
    let mut a = sample_resident("Lola", "Reyes", "Head", Some("HH7"), None);
    a.is_senior = true;
    let mut b = sample_resident("Lolo", "Reyes", "Spouse", Some("HH7"), None);
    b.is_senior = true;
    let c = sample_resident("Apo", "Reyes", "Child", Some("HH7"), None);
    for r in [&a, &b, &c] {
        s.insert_resident(r).unwrap();
    }
    assert_eq!(s.households_with_senior(), vec!["HH7".to_string()]);
    assert_eq!(s.households_with_pwd().len(), 0);
}
