use std::collections::HashSet;

use rowing_transport::{Allocation, Car, Destination, Gender, Minibus, Person, TransportGroup};

fn rider(id: &str, gender: Gender, year: u16) -> Person {
    Person {
        name: format!("Name {}", id),
        gender,
        student_id: id.to_string(),
        year_of_entry: year,
        pickup_locations: vec![],
        car: None,
        can_drive_minibus: false,
    }
}

fn with_car(mut p: Person, reg: &str, seats: u8) -> Person {
    p.car = Some(Car { vehicle_type: "Hatchback".to_string(), registration: reg.to_string(), seats });
    p
}

fn minibus_driver(mut p: Person) -> Person {
    p.can_drive_minibus = true;
    p
}

fn bus(reg: &str, seats: u8) -> Minibus {
    Minibus { registration: reg.to_string(), seats }
}

fn ids_of(g: &TransportGroup) -> Vec<String> {
    let mut ids = vec![g.driver.student_id.clone()];
    ids.extend(g.passengers.iter().map(|p| p.student_id.clone()));
    ids
}

fn wants(ids: &[&str]) -> HashSet<String> {
    ids.iter().map(|s| s.to_string()).collect()
}

fn five_riders() -> Vec<Person> {
    vec![
        minibus_driver(rider("R1", Gender::Male, 2020)),
        rider("R2", Gender::Male, 2020),
        rider("R3", Gender::Male, 2020),
        rider("R4", Gender::Male, 2020),
        rider("R5", Gender::Male, 2020),
    ]
}

#[test]
fn one_minibus_takes_a_whole_cohort() {
    let reqs = vec![(Destination::StrathclydePark, "07:00".to_string(), five_riders())];
    let groups = Allocation::assign_transport_global(reqs, &[bus("MB1", 8)], &HashSet::new()).unwrap();
    assert_eq!(groups.len(), 1);
    let g = &groups[0];
    assert_eq!(g.driver.student_id, "R1");
    assert_eq!(g.vehicle_label, "Minibus MB1");
    assert_eq!(g.passengers.len(), 4);
    assert_eq!(g.capacity, 8);
    assert_eq!(g.pickup_location, "Pleasance");
    assert_eq!(g.destination, Destination::StrathclydePark);
    assert_eq!(g.departure_time, "07:00");
}

#[test]
fn lone_car_leaves_one_rider_behind() {
    let mut people = five_riders();
    people[0] = with_car(people[0].clone(), "CAR1", 4);
    let reqs = vec![(Destination::StrathclydePark, "07:00".to_string(), people)];
    let r = Allocation::assign_transport_global(reqs, &[], &wants(&["R1"]));
    assert_eq!(r.unwrap_err(), vec!["Name R5".to_string()]);
}

#[test]
fn car_group_fields_and_fallback_pickup() {
    let mut people = five_riders();
    people.truncate(4);
    people[0] = with_car(people[0].clone(), "CAR1", 4);
    let reqs = vec![(Destination::Auchenstarry, "08:15".to_string(), people)];
    let groups = Allocation::assign_transport_global(reqs, &[], &wants(&["R1"])).unwrap();
    assert_eq!(groups.len(), 1);
    let g = &groups[0];
    assert_eq!(g.driver.student_id, "R1");
    assert_eq!(g.capacity, 4);
    assert_eq!(g.passengers.len(), 3);
    assert_eq!(g.vehicle_label, "Car CAR1 (Hatchback)");
    assert_eq!(g.pickup_location, "Home");
}

#[test]
fn car_pickup_is_drivers_first_location() {
    let mut d = with_car(rider("D", Gender::Female, 2019), "CAR9", 2);
    d.pickup_locations = vec!["Marchmont".to_string(), "Bruntsfield".to_string()];
    let reqs = vec![(Destination::Auchenstarry, "09:00".to_string(), vec![d, rider("R", Gender::Male, 2021)])];
    let groups = Allocation::assign_transport_global(reqs, &[], &HashSet::new()).unwrap();
    assert_eq!(groups[0].pickup_location, "Marchmont");
}

#[test]
fn minibus_goes_to_the_first_cohort() {
    let first = vec![
        minibus_driver(rider("A1", Gender::Male, 2020)),
        rider("A2", Gender::Female, 2020),
        rider("A3", Gender::Male, 2020),
    ];
    let second = vec![
        minibus_driver(rider("B1", Gender::Male, 2020)),
        rider("B2", Gender::Female, 2020),
        rider("B3", Gender::Male, 2020),
    ];
    let reqs = vec![
        (Destination::StrathclydePark, "07:00".to_string(), first),
        (Destination::Auchenstarry, "07:30".to_string(), second),
    ];
    let r = Allocation::assign_transport_global(reqs, &[bus("MB8", 8)], &HashSet::new());
    assert_eq!(r.unwrap_err(), vec!["Name B1".to_string(), "Name B2".to_string(), "Name B3".to_string()]);
}

#[test]
fn largest_minibus_is_used_first_in_request_order() {
    let first = vec![minibus_driver(rider("A1", Gender::Male, 2020)), rider("A2", Gender::Female, 2020)];
    let second = vec![minibus_driver(rider("B1", Gender::Male, 2020)), rider("B2", Gender::Female, 2020)];
    let reqs = vec![
        (Destination::StrathclydePark, "07:00".to_string(), first),
        (Destination::Auchenstarry, "07:30".to_string(), second),
    ];
    let fleet = [bus("SMALL", 4), bus("BIG", 8), bus("MID", 4)];
    let groups = Allocation::assign_transport_global(reqs, &fleet, &HashSet::new()).unwrap();
    assert_eq!(groups.len(), 2);
    assert_eq!(groups[0].vehicle_label, "Minibus BIG");
    assert_eq!(groups[1].vehicle_label, "Minibus SMALL");
}

#[test]
fn lone_rider_without_driver_fails_by_name() {
    let reqs = vec![(Destination::StrathclydePark, "07:00".to_string(), vec![rider("X", Gender::Female, 2022)])];
    let r = Allocation::assign_transport_global(reqs, &[], &HashSet::new());
    assert_eq!(r.unwrap_err(), vec!["Name X".to_string()]);
}

#[test]
fn lone_minibus_driver_cannot_take_a_minibus_alone() {
    let reqs = vec![(Destination::StrathclydePark, "07:00".to_string(), vec![minibus_driver(rider("X", Gender::Male, 2022))])];
    let r = Allocation::assign_transport_global(reqs, &[bus("MB", 8)], &HashSet::new());
    assert_eq!(r.unwrap_err(), vec!["Name X".to_string()]);
}

#[test]
fn balanced_car_prefers_a_male_passenger() {
    let driver = with_car(rider("D", Gender::Male, 2020), "CAR3", 3);
    let fc = with_car(rider("FC", Gender::Female, 2020), "CARF", 1);
    let people = vec![driver, rider("FA", Gender::Female, 2020), rider("MB", Gender::Male, 2020), fc];
    let reqs = vec![(Destination::StrathclydePark, "07:00".to_string(), people)];
    let groups = Allocation::assign_transport_global(reqs, &[], &wants(&["D"])).unwrap();
    assert_eq!(groups.len(), 2);
    let seated: Vec<&str> = groups[0].passengers.iter().map(|p| p.student_id.as_str()).collect();
    assert_eq!(seated, vec!["FA", "MB"]);
    assert_eq!(groups[1].driver.student_id, "FC");
    assert!(groups[1].passengers.is_empty());
}

#[test]
fn balanced_car_prefers_male_even_after_a_female() {
    let driver = with_car(rider("D", Gender::Female, 2020), "CAR2", 2);
    let other = with_car(rider("O", Gender::Female, 2020), "CARO", 1);
    let people = vec![driver, other, rider("F", Gender::Female, 2020), rider("M", Gender::Male, 2020)];
    let reqs = vec![(Destination::Auchenstarry, "10:00".to_string(), people)];
    let r = Allocation::assign_transport_global(reqs, &[], &wants(&["D"]));
    // The female driver makes women the majority, so the man is seated first.
    assert_eq!(r.unwrap_err(), vec!["Name F".to_string()]);
}

#[test]
fn location_match_beats_seniority() {
    let mut d = with_car(rider("D", Gender::Male, 2020), "CAR", 2);
    d.pickup_locations = vec!["Newington".to_string()];
    let senior = rider("S", Gender::Female, 1990);
    let mut local = rider("L", Gender::Female, 2024);
    local.pickup_locations = vec!["Leith".to_string(), "Newington".to_string()];
    let mut spare = with_car(rider("Z", Gender::Male, 2020), "CARZ", 2);
    spare.pickup_locations = vec!["Leith".to_string()];
    let reqs = vec![(Destination::StrathclydePark, "07:00".to_string(), vec![d, senior, local, spare])];
    let groups = Allocation::assign_transport_global(reqs, &[], &wants(&["D"])).unwrap();
    assert_eq!(groups[0].passengers[0].student_id, "L");
    assert_eq!(groups[1].driver.student_id, "Z");
    assert_eq!(groups[1].passengers[0].student_id, "S");
}

#[test]
fn seniority_picks_the_earlier_entry_year() {
    let d = with_car(rider("D", Gender::Male, 2020), "CAR", 2);
    let junior = rider("J", Gender::Female, 2023);
    let senior = rider("S", Gender::Female, 2018);
    let spare = with_car(rider("Z", Gender::Female, 2020), "CARZ", 2);
    let reqs = vec![(Destination::StrathclydePark, "07:00".to_string(), vec![d, junior, senior, spare])];
    let groups = Allocation::assign_transport_global(reqs, &[], &wants(&["D"])).unwrap();
    assert_eq!(groups[0].passengers[0].student_id, "S");
}

#[test]
fn volunteer_drives_before_a_larger_car() {
    let big = with_car(rider("BIG", Gender::Male, 2020), "BIGCAR", 7);
    let small = with_car(rider("SMALL", Gender::Male, 2020), "SMALLCAR", 2);
    let reqs = vec![(Destination::StrathclydePark, "07:00".to_string(), vec![big, small])];
    let groups = Allocation::assign_transport_global(reqs, &[], &wants(&["SMALL"])).unwrap();
    assert_eq!(groups.len(), 1);
    assert_eq!(groups[0].driver.student_id, "SMALL");
}

#[test]
fn without_volunteers_the_largest_car_drives_first_of_equals() {
    let a = with_car(rider("A", Gender::Male, 2020), "A", 3);
    let b = with_car(rider("B", Gender::Male, 2020), "B", 5);
    let c = with_car(rider("C", Gender::Male, 2020), "C", 5);
    let reqs = vec![(Destination::StrathclydePark, "07:00".to_string(), vec![a, b, c])];
    let groups = Allocation::assign_transport_global(reqs, &[], &HashSet::new()).unwrap();
    assert_eq!(groups.len(), 1);
    assert_eq!(groups[0].driver.student_id, "B");
}

#[test]
fn minibus_crew_prefers_someone_not_opted_in() {
    let v = with_car(minibus_driver(rider("V", Gender::Male, 2020)), "VCAR", 2);
    let n = minibus_driver(rider("N", Gender::Male, 2020));
    let reqs = vec![(Destination::StrathclydePark, "07:00".to_string(), vec![v, n, rider("R", Gender::Male, 2020)])];
    let groups = Allocation::assign_transport_global(reqs, &[bus("MB", 8)], &wants(&["V"])).unwrap();
    assert_eq!(groups[0].driver.student_id, "N");
}

#[test]
fn minibus_crew_falls_back_to_a_volunteer() {
    let v = minibus_driver(rider("V", Gender::Male, 2020));
    let reqs = vec![(Destination::StrathclydePark, "07:00".to_string(), vec![rider("R", Gender::Male, 2020), v])];
    let groups = Allocation::assign_transport_global(reqs, &[bus("MB", 8)], &wants(&["V"])).unwrap();
    assert_eq!(groups[0].driver.student_id, "V");
}

#[test]
fn one_seat_minibus_carries_its_driver_only() {
    let people = vec![
        minibus_driver(rider("A", Gender::Male, 2020)),
        rider("C", Gender::Male, 2020),
        rider("D", Gender::Male, 2020),
        minibus_driver(rider("B", Gender::Male, 2020)),
        with_car(rider("E", Gender::Male, 2020), "SOLO", 1),
    ];
    let reqs = vec![(Destination::StrathclydePark, "07:00".to_string(), people)];
    let groups = Allocation::assign_transport_global(reqs, &[bus("TINY", 1), bus("VAN", 3)], &HashSet::new()).unwrap();
    assert_eq!(groups.len(), 3);
    assert_eq!(groups[1].driver.student_id, "B");
    assert_eq!(groups[2].driver.student_id, "E");
    assert_eq!(groups[0].vehicle_label, "Minibus VAN");
    assert_eq!(groups[1].vehicle_label, "Minibus TINY");
    assert_eq!(groups[1].passengers.len(), 0);
    assert_eq!(groups[1].capacity, 1);
}

#[test]
fn empty_cohort_adds_nothing() {
    let full = vec![minibus_driver(rider("A", Gender::Male, 2020)), rider("B", Gender::Female, 2020)];
    let with_empty = vec![
        (Destination::Auchenstarry, "06:00".to_string(), vec![]),
        (Destination::StrathclydePark, "07:00".to_string(), full.clone()),
        (Destination::Auchenstarry, "09:00".to_string(), vec![]),
    ];
    let groups = Allocation::assign_transport_global(with_empty, &[bus("MB", 8)], &HashSet::new()).unwrap();
    assert_eq!(groups.len(), 1);
    assert_eq!(groups[0].departure_time, "07:00");
    let only_empty = vec![(Destination::Auchenstarry, "06:00".to_string(), vec![])];
    assert_eq!(Allocation::assign_transport_global(only_empty, &[], &HashSet::new()).unwrap().len(), 0);
    assert_eq!(Allocation::assign_transport_global(vec![], &[], &HashSet::new()).unwrap().len(), 0);
}

#[test]
fn every_unplaced_name_is_reported_in_order() {
    let reqs = vec![
        (Destination::StrathclydePark, "07:00".to_string(), vec![rider("A", Gender::Male, 2020), rider("B", Gender::Male, 2020)]),
        (Destination::Auchenstarry, "08:00".to_string(), vec![rider("C", Gender::Female, 2020)]),
    ];
    let r = Allocation::assign_transport_global(reqs, &[bus("MB", 8)], &HashSet::new());
    assert_eq!(r.unwrap_err(), vec!["Name A".to_string(), "Name B".to_string(), "Name C".to_string()]);
}

fn mixed_requests() -> Vec<(Destination, String, Vec<Person>)> {
    let mut c1 = Vec::new();
    c1.push(minibus_driver(rider("M1", Gender::Female, 2019)));
    for i in 0..9 {
        let g = if i % 2 == 0 { Gender::Male } else { Gender::Female };
        c1.push(rider(&format!("a{}", i), g, 2015 + i as u16));
    }
    c1.push(with_car(rider("C1", Gender::Male, 2021), "C1CAR", 6));
    let mut c2 = vec![
        with_car(rider("C2", Gender::Female, 2023), "C2CAR", 5),
        minibus_driver(rider("M2", Gender::Male, 2022)),
    ];
    for i in 0..5 {
        let g = if i % 3 == 0 { Gender::Female } else { Gender::Male };
        c2.push(rider(&format!("b{}", i), g, 2020));
    }
    vec![
        (Destination::StrathclydePark, "07:00".to_string(), c1),
        (Destination::Auchenstarry, "07:00".to_string(), c2),
    ]
}

#[test]
fn mixed_result_keeps_every_invariant() {
    let reqs = mixed_requests();
    let requested: HashSet<String> = reqs.iter().flat_map(|r| r.2.iter().map(|p| p.student_id.clone())).collect();
    let fleet = [bus("MB4", 4), bus("MB6", 6)];
    let groups = Allocation::assign_transport_global(reqs, &fleet, &wants(&["C2"])).unwrap();
    let mut seen = HashSet::new();
    for g in &groups {
        assert!(g.passengers.len() + 1 <= g.capacity);
        assert!(g.passengers.iter().all(|p| p.student_id != g.driver.student_id));
        for id in ids_of(g) {
            assert!(seen.insert(id), "an id appears twice");
        }
    }
    assert_eq!(seen, requested);
}

#[test]
fn same_inputs_give_the_same_groups() {
    let fleet = [bus("MB4", 4), bus("MB6", 6)];
    let first = Allocation::assign_transport_global(mixed_requests(), &fleet, &wants(&["C2"])).unwrap();
    let second = Allocation::assign_transport_global(mixed_requests(), &fleet, &wants(&["C2"])).unwrap();
    assert_eq!(first.len(), second.len());
    for (a, b) in first.iter().zip(second.iter()) {
        assert_eq!(a.driver, b.driver);
        assert_eq!(a.passengers, b.passengers);
        assert_eq!(a.vehicle_label, b.vehicle_label);
        assert_eq!(a.capacity, b.capacity);
        assert_eq!(a.pickup_location, b.pickup_location);
    }
}

#[test]
fn inputs_are_left_untouched() {
    let fleet = vec![bus("S", 2), bus("L", 9)];
    let w = wants(&["C2"]);
    let _ = Allocation::assign_transport_global(mixed_requests(), &fleet, &w);
    assert_eq!(fleet[0].registration, "S");
    assert_eq!(fleet[1].registration, "L");
    assert_eq!(w.len(), 1);
}
