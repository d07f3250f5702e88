use rowing_transport::{
    requests_from_boats, validate_boats, Boat, BoatType, Destination, Gender, Minibus, Person, PlanProblem,
    SystemState,
};

fn member(id: &str) -> Person {
    Person {
        name: format!("Member {}", id),
        gender: Gender::Female,
        student_id: id.to_string(),
        year_of_entry: 2021,
        pickup_locations: vec!["Leith".to_string()],
        car: None,
        can_drive_minibus: false,
    }
}

fn books() -> SystemState {
    SystemState { people: vec![member("a"), member("b"), member("c"), member("a")], minibuses: vec![Minibus { registration: "MB".to_string(), seats: 8 }] }
}

fn crewed(bt: BoatType, ids: &[&str], time: &str, dest: Option<Destination>) -> Boat {
    let mut b = Boat::new(bt);
    for (i, id) in ids.iter().enumerate() {
        b.seats[i] = Some(id.to_string());
    }
    b.departure_time = time.to_string();
    b.destination = dest;
    b
}

#[test]
fn destination_labels() {
    assert_eq!(Destination::StrathclydePark.label(), "Strathclyde Park");
    assert_eq!(Destination::Auchenstarry.label(), "Auchenstarry");
}

#[test]
fn boat_type_seats_and_labels() {
    let all = [
        (BoatType::Single, 1, "1x"),
        (BoatType::Double, 2, "2x"),
        (BoatType::Pair, 2, "2-"),
        (BoatType::Quad, 4, "4x-"),
        (BoatType::Four, 4, "4-"),
        (BoatType::FourCoxed, 5, "4+"),
        (BoatType::EightCoxed, 9, "8+"),
    ];
    for (bt, seats, label) in all {
        assert_eq!(bt.seat_count(), seats);
        assert_eq!(bt.label(), label);
    }
}

#[test]
fn new_boat_is_empty() {
    let b = Boat::new(BoatType::FourCoxed);
    assert_eq!(b.seats.len(), 5);
    assert!(b.seats.iter().all(|s| s.is_none()));
    assert!(b.departure_time.is_empty());
    assert!(b.destination.is_none());
}

#[test]
fn get_person_finds_the_first_with_the_id() {
    let mut s = books();
    s.people[3].name = "Second a".to_string();
    assert_eq!(s.get_person("a").unwrap().name, "Member a");
    assert_eq!(s.get_person("c").unwrap().student_id, "c");
    assert!(s.get_person("zz").is_none());
    assert!(SystemState::default().get_person("a").is_none());
}

#[test]
fn blank_departure_time_is_reported_first() {
    let boats = vec![crewed(BoatType::Single, &[], "   ", None)];
    assert_eq!(validate_boats(&boats), Err(PlanProblem::MissingDepartureTime));
    assert_eq!(PlanProblem::MissingDepartureTime.message(), "Error: All boat departure times must be entered.");
}

#[test]
fn missing_destination_is_reported() {
    let boats = vec![crewed(BoatType::Single, &["a"], " 07:00 ", None)];
    assert_eq!(validate_boats(&boats), Err(PlanProblem::MissingDestination));
    assert_eq!(PlanProblem::MissingDestination.message(), "Error: All destination locations must be selected.");
}

#[test]
fn empty_seat_is_reported() {
    let boats = vec![
        crewed(BoatType::Single, &["a"], "07:00", Some(Destination::Auchenstarry)),
        crewed(BoatType::Double, &["b"], "07:00", Some(Destination::Auchenstarry)),
    ];
    assert_eq!(validate_boats(&boats), Err(PlanProblem::EmptySeat));
    assert_eq!(PlanProblem::EmptySeat.message(), "Error: All boat seats must be filled.");
}

#[test]
fn complete_board_passes() {
    let boats = vec![crewed(BoatType::Double, &["a", "b"], "07:00", Some(Destination::Auchenstarry))];
    assert_eq!(validate_boats(&boats), Ok(()));
    assert_eq!(validate_boats(&vec![]), Ok(()));
}

#[test]
fn boats_group_by_venue_and_time() {
    let s = books();
    let boats = vec![
        crewed(BoatType::Single, &["a"], "07:00", Some(Destination::Auchenstarry)),
        crewed(BoatType::Single, &["b"], "07:00", Some(Destination::StrathclydePark)),
        crewed(BoatType::Double, &["c", "ghost"], "07:00", Some(Destination::Auchenstarry)),
        crewed(BoatType::Single, &["b"], "08:00", Some(Destination::Auchenstarry)),
    ];
    let reqs = requests_from_boats(&boats, &s);
    assert_eq!(reqs.len(), 3);
    assert_eq!(reqs[0].0, Destination::Auchenstarry);
    assert_eq!(reqs[0].1, "07:00");
    let ids: Vec<&str> = reqs[0].2.iter().map(|p| p.student_id.as_str()).collect();
    assert_eq!(ids, vec!["a", "c"]);
    assert_eq!(reqs[1].0, Destination::StrathclydePark);
    assert_eq!(reqs[1].2[0], member("b"));
    assert_eq!(reqs[2].1, "08:00");
}
