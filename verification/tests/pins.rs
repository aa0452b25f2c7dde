use barangay_records::barangay_map::MapPin;
use barangay_records::errors::RepoError;
use barangay_records::residents::Resident;
use barangay_records::store::Store;

fn sample_resident(first: &str, last: &str) -> Resident {
    Resident {
        id: None,
        first_name: first.to_string(),
        middle_name: None,
        last_name: last.to_string(),
        suffix: None,
        civil_status: "Single".to_string(),
        gender: "M".to_string(),
        nationality: "Filipino".to_string(),
        mobile_number: "09170000000".to_string(),
        religion: None,
        occupation: None,
        average_monthly_income: None,
        date_of_birth: "1985-03-20".to_string(),
        town_of_birth: "San Isidro".to_string(),
        province_of_birth: "Laguna".to_string(),
        zone: "1".to_string(),
        barangay: "Poblacion".to_string(),
        town: "San Isidro".to_string(),
        province: "Laguna".to_string(),
        household_number: Some("HH1".to_string()),
        role_in_household: "Head".to_string(),
        father_first_name: "Jose".to_string(),
        father_middle_name: None,
        father_last_name: last.to_string(),
        father_suffix: "Sr".to_string(),
        mother_first_name: "Ana".to_string(),
        mother_middle_name: None,
        mother_last_name: "Reyes".to_string(),
        status: "Active".to_string(),
        photo: None,
        is_registered_voter: false,
        is_pwd: false,
        is_senior: false,
        is_solo_parent: false,
    }
}

fn sample_pin(name: &str) -> MapPin {
    MapPin {
        id: None,
        name: name.to_string(),
        x: 1_250_000,
        y: 2_750_000,
        house_number: "12".to_string(),
        zone: "3".to_string(),
        section: "B".to_string(),
    }
}

#[test]
fn duplicate_pin_names_yield_one_success_and_one_duplicate_error() {
    let mut s = Store::new();
    let first = s.insert_map_pin(&sample_pin("Juan Dela Cruz"));
    let second = s.insert_map_pin(&sample_pin("Juan Dela Cruz"));
    assert_eq!(first, Ok(1));
    assert_eq!(second, Err(RepoError::Duplicate));
    assert_eq!(s.fetch_map_pins().len(), 1);
}

#[test]
fn insert_pin_rejects_an_empty_name() {
    let mut s = Store::new();
    assert_eq!(s.insert_map_pin(&sample_pin("")), Err(RepoError::Validation));
}

#[test]
fn fetch_map_pins_returns_stored_order() {
    let mut s = Store::new();
    s.insert_map_pin(&sample_pin("A")).unwrap();
    s.insert_map_pin(&sample_pin("B")).unwrap();
    let pins = s.fetch_map_pins();
    assert_eq!(pins.len(), 2);
    assert_eq!(pins[0].name, "A");
    assert_eq!(pins[1].name, "B");
    assert_eq!(pins[0].x, 1_250_000);
}

#[test]
fn update_pin_on_nonexistent_id_reports_zero_affected_rows() {
    let mut s = Store::new();
    let mut p = sample_pin("A");
    p.id = Some(9);
    assert_eq!(s.update_map_pin(&p), Ok(0));
}

#[test]
fn update_pin_rejects_taking_another_pins_name() {
    let mut s = Store::new();
    let a = s.insert_map_pin(&sample_pin("A")).unwrap();
    s.insert_map_pin(&sample_pin("B")).unwrap();
    let mut renamed = sample_pin("B");
    renamed.id = Some(a);
    assert_eq!(s.update_map_pin(&renamed), Err(RepoError::Duplicate));
    // keeping its own name is no duplicate
    let mut moved = sample_pin("A");
    moved.id = Some(a);
    moved.x = 7;
    assert_eq!(s.update_map_pin(&moved), Ok(1));
    assert_eq!(s.fetch_map_pins()[0].x, 7);
}

#[test]
fn delete_pin_is_idempotent() {
    let mut s = Store::new();
    let id = s.insert_map_pin(&sample_pin("A")).unwrap();
    s.delete_map_pin(id);
    assert_eq!(s.fetch_map_pins().len(), 0);
    s.delete_map_pin(id);
    assert_eq!(s.fetch_map_pins().len(), 0);
}

#[test]
fn save_pin_routes_on_id_presence() {
    let mut s = Store::new();
    s.save_map_pin(&sample_pin("A")).unwrap();
    let mut p = sample_pin("A");
    p.id = Some(1);
    p.zone = "9".to_string();
    s.save_map_pin(&p).unwrap();
    let pins = s.fetch_map_pins();
    assert_eq!(pins.len(), 1);
    assert_eq!(pins[0].zone, "9");
    let mut missing = sample_pin("C");
    missing.id = Some(4);
    assert_eq!(s.save_map_pin(&missing), Err(RepoError::NotFound));
}

#[test]
fn save_from_resident_succeeds_once_then_reports_duplicate() {
    let mut s = Store::new();
    let rid = s.insert_resident(&sample_resident("Juan", "Dela Cruz")).unwrap();
    let first = s.save_map_pin_from_resident(rid, 10, 20, "12", "3", "B");
    assert_eq!(first, Ok(1));
    let pins = s.fetch_map_pins();
    assert_eq!(pins.len(), 1);
    assert_eq!(pins[0].name, "Juan Dela Cruz");
    assert_eq!(pins[0].x, 10);
    assert_eq!(pins[0].y, 20);
    // a second save for the same resident finds the name taken
    let second = s.save_map_pin_from_resident(rid, 11, 21, "12", "3", "B");
    assert_eq!(second, Err(RepoError::Duplicate));
    assert_eq!(s.fetch_map_pins().len(), 1);
}

#[test]
fn save_from_resident_reports_a_missing_resident() {
    let mut s = Store::new();
    assert_eq!(
        s.save_map_pin_from_resident(321, 0, 0, "1", "1", "A"),
        Err(RepoError::NotFound)
    );
    assert_eq!(s.fetch_map_pins().len(), 0);
}

#[test]
fn save_from_resident_collides_with_a_plain_insert_of_the_same_name() {
    let mut s = Store::new();
    let rid = s.insert_resident(&sample_resident("Juan", "Dela Cruz")).unwrap();
    s.insert_map_pin(&sample_pin("Juan Dela Cruz")).unwrap();
    assert_eq!(
        s.save_map_pin_from_resident(rid, 0, 0, "1", "1", "A"),
        Err(RepoError::Duplicate)
    );
}
