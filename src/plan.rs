//! The allocation procedure stated over mathematical values: which driver is
//! picked, which passenger fills the next seat, and what each cohort yields.
use vstd::prelude::*;

use crate::models::{Destination, Gender, Minibus, Person};

verus! {

/// One vehicle's load, as a mathematical value.
pub struct GroupView {
    pub driver: Person,
    pub vehicle_label: Seq<char>,
    pub passengers: Seq<Person>,
    pub capacity: nat,
    pub pickup_location: Seq<char>,
    pub destination: Destination,
    pub departure_time: Seq<char>,
}

/// What one cohort yields: its groups, the people left unseated, and the
/// minibuses still free for later cohorts.
pub struct CohortView {
    pub groups: Seq<GroupView>,
    pub unseated: Seq<Person>,
    pub fleet: Seq<Minibus>,
}

/// The ids of a list of people, in order.
pub open spec fn ids(s: Seq<Person>) -> Seq<Seq<char>> {
    s.map_values(|p: Person| p.student_id@)
}

/// The opt-in set of a `HashSet<String>`, as character sequences.
pub open spec fn id_set(s: Set<String>) -> Set<Seq<char>> {
    s.map(|x: String| x@)
}

/// Whether a person has opted in to drive.
pub open spec fn opted_in(wants: Set<Seq<char>>, p: Person) -> bool {
    wants.contains(p.student_id@)
}

/// Seats of a person's car, zero without one.
pub open spec fn car_seats(p: Person) -> int {
    match p.car {
        Some(c) => c.seats as int,
        None => 0,
    }
}

/// Who may crew a minibus: qualified, and (when `avoid_volunteers`) not
/// opted in to drive their own car.
pub open spec fn crew_pred(wants: Set<Seq<char>>, avoid_volunteers: bool) -> spec_fn(Person) -> bool {
    |p: Person| p.can_drive_minibus && (!avoid_volunteers || !opted_in(wants, p))
}

/// Who may drive their own car: an owner, and (when `volunteers_only`) opted in.
pub open spec fn owner_pred(wants: Set<Seq<char>>, volunteers_only: bool) -> spec_fn(Person) -> bool {
    |p: Person| p.car is Some && (!volunteers_only || opted_in(wants, p))
}

/// The first index at or after `i` whose person satisfies `pred`.
pub open spec fn first_from(pool: Seq<Person>, pred: spec_fn(Person) -> bool, i: int) -> Option<int>
    decreases pool.len() - i,
{
    if i < 0 || i >= pool.len() {
        None
    } else if pred(pool[i]) {
        Some(i)
    } else {
        first_from(pool, pred, i + 1)
    }
}

/// Scanning from `i` with `best` found so far: the first candidate whose car
/// has the most seats.
pub open spec fn largest_from(pool: Seq<Person>, pred: spec_fn(Person) -> bool, i: int, best: Option<int>) -> Option<int>
    decreases pool.len() - i,
{
    if i < 0 || i >= pool.len() {
        best
    } else {
        let better = pred(pool[i]) && match best {
            None => true,
            Some(b) => car_seats(pool[i]) > car_seats(pool[b]),
        };
        largest_from(pool, pred, i + 1, if better { Some(i) } else { best })
    }
}

/// Minibus driver policy: the first qualified person who has not opted in to
/// drive, else the first qualified person.
pub open spec fn minibus_driver(pool: Seq<Person>, wants: Set<Seq<char>>) -> Option<int> {
    match first_from(pool, crew_pred(wants, true), 0) {
        Some(i) => Some(i),
        None => first_from(pool, crew_pred(wants, false), 0),
    }
}

/// Car driver policy: among volunteers with a car, the largest car (first of
/// equals); if none volunteered, the largest car of anyone.
pub open spec fn car_driver(pool: Seq<Person>, wants: Set<Seq<char>>) -> Option<int> {
    match largest_from(pool, owner_pred(wants, true), 0, None) {
        Some(i) => Some(i),
        None => largest_from(pool, owner_pred(wants, false), 0, None),
    }
}

/// How many people of a list have gender `g`.
pub open spec fn gender_count(s: Seq<Person>, g: Gender) -> nat
    decreases s.len(),
{
    if s.len() == 0 {
        0
    } else {
        gender_count(s.drop_last(), g) + if s.last().gender == g { 1nat } else { 0nat }
    }
}

/// The gender that the next passenger should preferably have: Female when the
/// vehicle holds more men than women, else Male.
pub open spec fn preferred_gender(g: GroupView) -> Gender {
    let aboard = seq![g.driver] + g.passengers;
    if gender_count(aboard, Gender::Male) > gender_count(aboard, Gender::Female) {
        Gender::Female
    } else {
        Gender::Male
    }
}

/// Whether a person lists `loc` among their pickup locations.
pub open spec fn serves(p: Person, loc: Seq<char>) -> bool {
    exists|k: int| 0 <= k < p.pickup_locations.len() && #[trigger] p.pickup_locations[k]@ == loc
}

/// A candidate passenger's score for a vehicle: location match, then
/// seniority, then gender balance.
pub open spec fn score(p: Person, g: GroupView) -> int {
    (if serves(p, g.pickup_location) { 1000int } else { 0int }) + (3000 - p.year_of_entry as int)
        + (if p.gender == preferred_gender(g) { 100int } else { 0int })
}

/// Scanning from `i` with `best` found so far: the first candidate of highest score.
pub open spec fn best_from(pool: Seq<Person>, g: GroupView, i: int, best: int) -> int
    decreases pool.len() - i,
{
    if i < 0 || i >= pool.len() {
        best
    } else {
        best_from(pool, g, i + 1, if score(pool[i], g) > score(pool[best], g) { i } else { best })
    }
}

/// The index of the next passenger for `g`: highest score, first of equals.
pub open spec fn best_passenger(pool: Seq<Person>, g: GroupView) -> int {
    best_from(pool, g, 1, 0)
}

/// The passenger scan returns an index of the pool.
pub proof fn lemma_best_from_in_range(pool: Seq<Person>, g: GroupView, i: int, best: int)
    requires
        0 <= best < pool.len(),
        0 <= i,
    ensures
        0 <= best_from(pool, g, i, best) < pool.len(),
    decreases pool.len() - i,
{
    if i < pool.len() {
        let nb = if score(pool[i], g) > score(pool[best], g) { i } else { best };
        lemma_best_from_in_range(pool, g, i + 1, nb);
    }
}

/// A group with one more passenger.
pub open spec fn seat(g: GroupView, p: Person) -> GroupView {
    GroupView { passengers: g.passengers.push(p), ..g }
}

/// Seats passengers from `pool` one by one until the vehicle is full or the
/// pool is empty; returns the group and what is left of the pool.
pub open spec fn fill(g: GroupView, pool: Seq<Person>) -> (GroupView, Seq<Person>)
    decreases pool.len()
    via fill_decreases
{
    if g.passengers.len() + 1 < g.capacity && pool.len() > 0 {
        let i = best_passenger(pool, g);
        fill(seat(g, pool[i]), pool.remove(i))
    } else {
        (g, pool)
    }
}

#[via_fn]
proof fn fill_decreases(g: GroupView, pool: Seq<Person>) {
    if g.passengers.len() + 1 < g.capacity && pool.len() > 0 {
        lemma_best_from_in_range(pool, g, 1, 0);
    }
}

/// Filling a vehicle never grows the pool.
pub proof fn lemma_fill_shrinks(g: GroupView, pool: Seq<Person>)
    ensures
        fill(g, pool).1.len() <= pool.len(),
    decreases pool.len(),
{
    if g.passengers.len() + 1 < g.capacity && pool.len() > 0 {
        let i = best_passenger(pool, g);
        lemma_best_from_in_range(pool, g, 1, 0);
        lemma_fill_shrinks(seat(g, pool[i]), pool.remove(i));
    }
}

/// The fixed shared pickup point of every minibus.
pub open spec fn minibus_pickup() -> Seq<char> {
    "Pleasance"@
}

/// Where a car driver who lists no pickup location starts from.
pub open spec fn car_pickup_fallback() -> Seq<char> {
    "Home"@
}

/// An empty minibus group with its driver seated.
pub open spec fn minibus_group(driver: Person, mb: Minibus, dest: Destination, time: Seq<char>) -> GroupView {
    GroupView {
        driver,
        vehicle_label: "Minibus "@ + mb.registration@,
        passengers: seq![],
        capacity: mb.seats as nat,
        pickup_location: minibus_pickup(),
        destination: dest,
        departure_time: time,
    }
}

/// An empty car group with its owner at the wheel.
pub open spec fn car_group(driver: Person, dest: Destination, time: Seq<char>) -> GroupView {
    let car = driver.car->Some_0;
    GroupView {
        driver,
        vehicle_label: "Car "@ + car.registration@ + " ("@ + car.vehicle_type@ + ")"@,
        passengers: seq![],
        capacity: car.seats as nat,
        pickup_location: if driver.pickup_locations.len() > 0 {
            driver.pickup_locations[0]@
        } else {
            car_pickup_fallback()
        },
        destination: dest,
        departure_time: time,
    }
}

/// Minibus filling for one cohort, while more than one person is unseated and
/// a minibus is free (taken from the front of `fleet`).
pub open spec fn minibus_phase(people: Seq<Person>, fleet: Seq<Minibus>, wants: Set<Seq<char>>, dest: Destination, time: Seq<char>) -> CohortView
    decreases fleet.len(),
{
    if people.len() > 1 && fleet.len() > 0 {
        match minibus_driver(people, wants) {
            Some(d) => {
                let (g, rest) = fill(minibus_group(people[d], fleet[0], dest, time), people.remove(d));
                let next = minibus_phase(rest, fleet.drop_first(), wants, dest, time);
                CohortView { groups: seq![g] + next.groups, ..next }
            },
            None => CohortView { groups: seq![], unseated: people, fleet },
        }
    } else {
        CohortView { groups: seq![], unseated: people, fleet }
    }
}

/// Car filling for one cohort, while anyone is unseated and a car owner remains.
pub open spec fn car_phase(people: Seq<Person>, wants: Set<Seq<char>>, dest: Destination, time: Seq<char>) -> (Seq<GroupView>, Seq<Person>)
    decreases people.len()
    via car_phase_decreases
{
    if people.len() > 0 {
        match car_driver(people, wants) {
            Some(d) => {
                let (g, rest) = fill(car_group(people[d], dest, time), people.remove(d));
                let next = car_phase(rest, wants, dest, time);
                (seq![g] + next.0, next.1)
            },
            None => (seq![], people),
        }
    } else {
        (seq![], people)
    }
}

#[via_fn]
proof fn car_phase_decreases(people: Seq<Person>, wants: Set<Seq<char>>, dest: Destination, time: Seq<char>) {
    if people.len() > 0 {
        if let Some(d) = car_driver(people, wants) {
            lemma_car_driver_in_range(people, wants);
            lemma_fill_shrinks(car_group(people[d], dest, time), people.remove(d));
        }
    }
}

/// The car scan returns an index of a candidate with a car.
pub proof fn lemma_largest_from_in_range(pool: Seq<Person>, pred: spec_fn(Person) -> bool, i: int, best: Option<int>)
    requires
        0 <= i,
        best matches Some(b) ==> 0 <= b < pool.len() && pred(pool[b]) && pool[b].car is Some,
        forall|p: Person| #[trigger] pred(p) ==> p.car is Some,
    ensures
        largest_from(pool, pred, i, best) matches Some(r) ==> 0 <= r < pool.len() && pred(pool[r]) && pool[r].car is Some,
    decreases pool.len() - i,
{
    if i < pool.len() {
        let better = pred(pool[i]) && match best {
            None => true,
            Some(b) => car_seats(pool[i]) > car_seats(pool[b]),
        };
        lemma_largest_from_in_range(pool, pred, i + 1, if better { Some(i) } else { best });
    }
}

/// The car driver policy picks an index of a car owner.
pub proof fn lemma_car_driver_in_range(pool: Seq<Person>, wants: Set<Seq<char>>)
    ensures
        car_driver(pool, wants) matches Some(d) ==> 0 <= d < pool.len() && pool[d].car is Some,
{
    lemma_largest_from_in_range(pool, owner_pred(wants, true), 0, None);
    lemma_largest_from_in_range(pool, owner_pred(wants, false), 0, None);
}

/// The first-match scan returns an index that satisfies the predicate.
pub proof fn lemma_first_from_in_range(pool: Seq<Person>, pred: spec_fn(Person) -> bool, i: int)
    ensures
        first_from(pool, pred, i) matches Some(r) ==> 0 <= r < pool.len() && pred(pool[r]),
    decreases pool.len() - i,
{
    if 0 <= i < pool.len() && !pred(pool[i]) {
        lemma_first_from_in_range(pool, pred, i + 1);
    }
}

/// The minibus driver policy picks an index of a qualified driver.
pub proof fn lemma_minibus_driver_in_range(pool: Seq<Person>, wants: Set<Seq<char>>)
    ensures
        minibus_driver(pool, wants) matches Some(d) ==> 0 <= d < pool.len() && pool[d].can_drive_minibus,
{
    lemma_first_from_in_range(pool, crew_pred(wants, true), 0);
    lemma_first_from_in_range(pool, crew_pred(wants, false), 0);
}

/// One cohort: minibuses first, then cars.
pub open spec fn cohort(people: Seq<Person>, fleet: Seq<Minibus>, wants: Set<Seq<char>>, dest: Destination, time: Seq<char>) -> CohortView {
    let m = minibus_phase(people, fleet, wants, dest, time);
    let c = car_phase(m.unseated, wants, dest, time);
    CohortView { groups: m.groups + c.0, unseated: c.1, fleet: m.fleet }
}

/// All cohorts in request order, against a shrinking minibus fleet.
pub open spec fn plan(reqs: Seq<(Destination, String, Vec<Person>)>, fleet: Seq<Minibus>, wants: Set<Seq<char>>) -> Seq<GroupView>
    decreases reqs.len(),
{
    if reqs.len() == 0 {
        seq![]
    } else {
        let c = cohort(reqs[0].2@, fleet, wants, reqs[0].0, reqs[0].1@);
        c.groups + plan(reqs.drop_first(), c.fleet, wants)
    }
}

/// Everyone requested, cohort after cohort.
pub open spec fn requested(reqs: Seq<(Destination, String, Vec<Person>)>) -> Seq<Person> {
    reqs.map_values(|r: (Destination, String, Vec<Person>)| r.2@).flatten()
}

/// The ids aboard one vehicle: the driver, then the passengers.
pub open spec fn group_ids(g: GroupView) -> Seq<Seq<char>> {
    seq![g.driver.student_id@] + ids(g.passengers)
}

/// The ids aboard any of the vehicles.
pub open spec fn placed_ids(gs: Seq<GroupView>) -> Seq<Seq<char>> {
    gs.map_values(|g: GroupView| group_ids(g)).flatten()
}

/// The names of those in `people` whose id is not in `placed`, in order.
pub open spec fn missing_names(people: Seq<Person>, placed: Seq<Seq<char>>) -> Seq<Seq<char>>
    decreases people.len(),
{
    if people.len() == 0 {
        seq![]
    } else {
        let rest = missing_names(people.drop_last(), placed);
        if placed.contains(people.last().student_id@) {
            rest
        } else {
            rest.push(people.last().name@)
        }
    }
}

/// The first index at or after `j` of a minibus with fewer seats than `m`, or
/// the length: where `m` goes in a list ordered by descending size, after its equals.
pub open spec fn slot_for(fleet: Seq<Minibus>, m: Minibus, j: int) -> int
    decreases fleet.len() - j,
{
    if j < 0 || j >= fleet.len() {
        fleet.len() as int
    } else if fleet[j].seats < m.seats {
        j
    } else {
        slot_for(fleet, m, j + 1)
    }
}

/// The minibuses ordered by descending seat count, equals in inventory order.
pub open spec fn by_size(ms: Seq<Minibus>) -> Seq<Minibus>
    decreases ms.len(),
{
    if ms.len() == 0 {
        seq![]
    } else {
        let t = by_size(ms.drop_last());
        t.insert(slot_for(t, ms.last(), 0), ms.last())
    }
}

/// The whole allocation: the groups if everyone requested got a seat, else
/// the names of those who did not.
pub open spec fn allocation(reqs: Seq<(Destination, String, Vec<Person>)>, minibuses: Seq<Minibus>, wants: Set<Seq<char>>) -> Result<Seq<GroupView>, Seq<Seq<char>>> {
    let gs = plan(reqs, by_size(minibuses), wants);
    let missing = missing_names(requested(reqs), placed_ids(gs));
    if missing.len() == 0 {
        Ok(gs)
    } else {
        Err(missing)
    }
}

} // verus!
