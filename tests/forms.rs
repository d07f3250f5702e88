use rowing_transport::{
    build_person_from_add_form, AddPersonForm, EditMinibusForm, EditPersonForm, Gender, Minibus, Person, SystemState,
};

fn filled() -> AddPersonForm {
    let mut f = AddPersonForm::default();
    f.name = "  Ada Lovelace ".to_string();
    f.gender = Some(Gender::Female);
    f.student_id = " s123 ".to_string();
    f.year_of_entry = " 2021 ".to_string();
    f.pickup_locations = " Leith, ,Newington ,, Marchmont".to_string();
    f
}

fn edit_form(index: usize) -> EditPersonForm {
    EditPersonForm {
        index,
        name: " Bob ".to_string(),
        gender: Some(Gender::Male),
        student_id: "s9".to_string(),
        year_of_entry: "not a year".to_string(),
        pickup_locations: "Leith".to_string(),
        can_drive_minibus: true,
        has_car: true,
        wants_to_drive: true,
        car_type: " Estate ".to_string(),
        car_registration: " AB12 CDE ".to_string(),
        car_seats: "+5".to_string(),
    }
}

fn someone() -> Person {
    Person {
        name: "Old".to_string(),
        gender: Gender::Female,
        student_id: "old".to_string(),
        year_of_entry: 2000,
        pickup_locations: vec![],
        car: None,
        can_drive_minibus: false,
    }
}

#[test]
fn add_form_builds_a_trimmed_record() {
    let p = build_person_from_add_form(&filled()).unwrap();
    assert_eq!(p.name, "Ada Lovelace");
    assert_eq!(p.student_id, "s123");
    assert_eq!(p.gender, Gender::Female);
    assert_eq!(p.year_of_entry, 2021);
    assert_eq!(p.pickup_locations, vec!["Leith".to_string(), "Newington".to_string(), "Marchmont".to_string()]);
    assert!(p.car.is_none());
    assert!(!p.can_drive_minibus);
}

#[test]
fn add_form_with_a_car() {
    let mut f = filled();
    f.has_car = true;
    f.car_type = " Estate ".to_string();
    f.car_registration = "XY99".to_string();
    f.car_seats = "7".to_string();
    f.can_drive_minibus = true;
    let p = build_person_from_add_form(&f).unwrap();
    let car = p.car.unwrap();
    assert_eq!(car.vehicle_type, "Estate");
    assert_eq!(car.registration, "XY99");
    assert_eq!(car.seats, 7);
    assert!(p.can_drive_minibus);
}

#[test]
fn add_form_rejects_missing_fields() {
    let mut f = filled();
    f.gender = None;
    assert!(build_person_from_add_form(&f).is_none());
    let mut f = filled();
    f.name = "   ".to_string();
    assert!(build_person_from_add_form(&f).is_none());
    let mut f = filled();
    f.student_id = String::new();
    assert!(build_person_from_add_form(&f).is_none());
    let mut f = filled();
    f.year_of_entry = "20x1".to_string();
    assert!(build_person_from_add_form(&f).is_none());
    let mut f = filled();
    f.year_of_entry = "70000".to_string();
    assert!(build_person_from_add_form(&f).is_none());
    let mut f = filled();
    f.has_car = true;
    f.car_seats = "300".to_string();
    assert!(build_person_from_add_form(&f).is_none());
}

#[test]
fn add_form_with_no_locations() {
    let mut f = filled();
    f.pickup_locations = " , ".to_string();
    assert!(build_person_from_add_form(&f).unwrap().pickup_locations.is_empty());
    assert!(build_person_from_add_form(&AddPersonForm::default()).is_none());
}

#[test]
fn edit_form_reads_numbers_leniently() {
    let p = edit_form(0).edited_person().unwrap();
    assert_eq!(p.name, "Bob");
    assert_eq!(p.year_of_entry, 0);
    let car = p.car.unwrap();
    assert_eq!(car.seats, 5);
    assert_eq!(car.registration, "AB12 CDE");
    assert_eq!(car.vehicle_type, "Estate");
    let mut f = edit_form(0);
    f.gender = None;
    assert!(f.edited_person().is_none());
}

#[test]
fn opt_in_needs_a_car() {
    let mut f = edit_form(0);
    assert!(f.keeps_opt_in());
    f.has_car = false;
    assert!(!f.keeps_opt_in());
}

#[test]
fn person_edit_replaces_the_indexed_record() {
    let mut s = SystemState { people: vec![someone(), someone()], minibuses: vec![] };
    assert!(s.apply_person_edit(&edit_form(1)));
    assert_eq!(s.people[0], someone());
    assert_eq!(s.people[1].student_id, "s9");
    assert!(!s.apply_person_edit(&edit_form(2)));
    let mut f = edit_form(0);
    f.gender = None;
    assert!(!s.apply_person_edit(&f));
    assert_eq!(s.people[0], someone());
}

#[test]
fn minibus_edit_replaces_the_indexed_minibus() {
    let mut s = SystemState { people: vec![], minibuses: vec![Minibus { registration: "A".to_string(), seats: 8 }] };
    let f = EditMinibusForm { index: 0, registration: " NEW1 ".to_string(), seats: "lots".to_string() };
    assert!(s.apply_minibus_edit(&f));
    assert_eq!(s.minibuses[0].registration, "NEW1");
    assert_eq!(s.minibuses[0].seats, 0);
    let f = EditMinibusForm { index: 3, registration: "X".to_string(), seats: "9".to_string() };
    assert!(!s.apply_minibus_edit(&f));
    assert_eq!(s.minibuses.len(), 1);
}
