//! The allocation engine: seats every requester of every cohort in a minibus
//! or a car, or reports who could not be seated.
use std::collections::HashSet;

use vstd::prelude::*;
use vstd::string::StringExecFns;

use crate::models::{Destination, Gender, Minibus, Person};
use crate::text::texts;
use crate::plan::{
    allocation, group_ids, ids, missing_names, placed_ids, plan, requested,
    by_size, car_group, car_phase, cohort, minibus_group, minibus_phase, slot_for,
    lemma_car_driver_in_range, lemma_minibus_driver_in_range, minibus_driver, car_driver,
    best_from, best_passenger, crew_pred, fill, first_from, gender_count, id_set, largest_from,
    lemma_fill_shrinks, owner_pred, preferred_gender, score, seat, serves, GroupView, car_seats,
};

verus! {

/// One vehicle's load: its driver, its label, its passengers and where it
/// picks them up.
#[derive(Clone, Debug)]
pub struct TransportGroup {
    pub driver: Person,
    pub vehicle_label: String,
    pub passengers: Vec<Person>,
    pub capacity: usize,
    pub pickup_location: String,
    pub destination: Destination,
    pub departure_time: String,
}

impl View for TransportGroup {
    type V = GroupView;

    open spec fn view(&self) -> GroupView {
        GroupView {
            driver: self.driver,
            vehicle_label: self.vehicle_label@,
            passengers: self.passengers@,
            capacity: self.capacity as nat,
            pickup_location: self.pickup_location@,
            destination: self.destination,
            departure_time: self.departure_time@,
        }
    }
}

/// An index found by a scan, as a mathematical value.
pub open spec fn index_of(r: Option<usize>) -> Option<int> {
    match r {
        Some(i) => Some(i as int),
        None => None,
    }
}

/// The views of a list of groups.
pub open spec fn views(gs: Seq<TransportGroup>) -> Seq<GroupView> {
    gs.map_values(|g: TransportGroup| g@)
}

/// What an allocation returns, as a mathematical value.
pub open spec fn outcome(r: Result<Vec<TransportGroup>, Vec<String>>) -> Result<Seq<GroupView>, Seq<Seq<char>>> {
    match r {
        Ok(gs) => Ok(views(gs@)),
        Err(names) => Err(texts(names@)),
    }
}

/// Relies on `HashSet::contains`: whether the set holds a string equal to `id`.
#[verifier::external_body]
fn set_holds(set: &HashSet<String>, id: &String) -> (r: bool)
    ensures
        r == id_set(set@).contains(id@),
{
    set.contains(id)
}

/// The transport allocation engine.
pub struct Allocation;

impl Allocation {
    /// The first person in `pool` who can drive a minibus and, when
    /// `avoid_volunteers` holds, has not opted in to drive their own car.
    fn find_willing_minibus_driver(pool: &Vec<Person>, wants_to_drive: &HashSet<String>, avoid_volunteers: bool) -> (r: Option<usize>)
        ensures
            index_of(r) == first_from(pool@, crew_pred(id_set(wants_to_drive@), avoid_volunteers), 0),
    {
        let ghost pred = crew_pred(id_set(wants_to_drive@), avoid_volunteers);
        let mut i: usize = 0;
        while i < pool.len()
            invariant
                i <= pool.len(),
                pred == crew_pred(id_set(wants_to_drive@), avoid_volunteers),
                first_from(pool@, pred, 0) == first_from(pool@, pred, i as int),
            decreases pool.len() - i,
        {
            let p = &pool[i];
            let fits = p.can_drive_minibus && (!avoid_volunteers || !set_holds(wants_to_drive, &p.student_id));
            assert(fits == pred(pool@[i as int]));
            if fits {
                return Some(i);
            }
            i += 1;
        }
        None
    }

    /// Among the car owners of `pool` (only those opted in to drive, when
    /// `volunteers_only` holds), the first whose car has the most seats.
    fn find_willing_car_driver(pool: &Vec<Person>, wants_to_drive: &HashSet<String>, volunteers_only: bool) -> (r: Option<usize>)
        ensures
            index_of(r) == largest_from(pool@, owner_pred(id_set(wants_to_drive@), volunteers_only), 0, None),
    {
        let ghost pred = owner_pred(id_set(wants_to_drive@), volunteers_only);
        let mut best: Option<usize> = None;
        let mut best_seats: u8 = 0;
        let mut i: usize = 0;
        while i < pool.len()
            invariant
                i <= pool.len(),
                pred == owner_pred(id_set(wants_to_drive@), volunteers_only),
                largest_from(pool@, pred, 0, None) == largest_from(pool@, pred, i as int, index_of(best)),
                best matches Some(b) ==> b < pool.len() && best_seats as int == car_seats(pool@[b as int]),
            decreases pool.len() - i,
        {
            let p = &pool[i];
            let ghost before = index_of(best);
            if let Some(c) = &p.car {
                let eligible = !volunteers_only || set_holds(wants_to_drive, &p.student_id);
                assert(eligible == pred(pool@[i as int]));
                if eligible && (best.is_none() || c.seats > best_seats) {
                    best = Some(i);
                    best_seats = c.seats;
                }
            } else {
                assert(!pred(pool@[i as int]));
            }
            assert(largest_from(pool@, pred, i as int, before) == largest_from(pool@, pred, i + 1, index_of(best)));
            i += 1;
        }
        best
    }

    /// Whether `p` lists `loc` among their pickup locations.
    fn serves_location(p: &Person, loc: &String) -> (r: bool)
        ensures
            r == serves(*p, loc@),
    {
        let mut k: usize = 0;
        while k < p.pickup_locations.len()
            invariant
                k <= p.pickup_locations.len(),
                forall|j: int| 0 <= j < k ==> p.pickup_locations@[j]@ != loc@,
            decreases p.pickup_locations.len() - k,
        {
            if p.pickup_locations[k] == *loc {
                return true;
            }
            k += 1;
        }
        false
    }

    /// The gender that the next passenger of `group` should preferably have.
    fn preferred_gender(group: &TransportGroup) -> (r: Gender)
        ensures
            r == preferred_gender(group@),
    {
        let ghost aboard = seq![group.driver] + group.passengers@;
        let mut males: u128 = if group.driver.gender == Gender::Male { 1 } else { 0 };
        let mut females: u128 = if group.driver.gender == Gender::Female { 1 } else { 0 };
        proof {
            assert(aboard.take(1).drop_last() =~= Seq::<Person>::empty());
            reveal_with_fuel(gender_count, 2);
        }
        let mut k: usize = 0;
        while k < group.passengers.len()
            invariant
                k <= group.passengers.len(),
                aboard == seq![group.driver] + group.passengers@,
                males == gender_count(aboard.take(k + 1), Gender::Male),
                females == gender_count(aboard.take(k + 1), Gender::Female),
                males <= k + 1,
                females <= k + 1,
            decreases group.passengers.len() - k,
        {
            proof {
                assert(aboard.take(k + 2).drop_last() =~= aboard.take(k + 1));
            }
            if group.passengers[k].gender == Gender::Male {
                males += 1;
            } else {
                females += 1;
            }
            k += 1;
        }
        proof {
            assert(aboard.take(k + 1) =~= aboard);
        }
        if males > females {
            Gender::Female
        } else {
            Gender::Male
        }
    }

    /// The score of candidate `p` for `group`, given the preferred gender.
    fn passenger_score(p: &Person, group: &TransportGroup, preferred: Gender) -> (r: i64)
        requires
            preferred == preferred_gender(group@),
        ensures
            r == score(*p, group@),
    {
        let mut s: i64 = 3000 - p.year_of_entry as i64;
        if Self::serves_location(p, &group.pickup_location) {
            s = s + 1000;
        }
        if p.gender == preferred {
            s = s + 100;
        }
        s
    }

    /// The index of the passenger to seat next in `group`: the highest score,
    /// the first of equals.
    fn find_best_passenger(pool: &Vec<Person>, group: &TransportGroup) -> (r: usize)
        requires
            pool.len() > 0,
        ensures
            r as int == best_passenger(pool@, group@),
            r < pool.len(),
    {
        let preferred = Self::preferred_gender(group);
        let mut best_idx: usize = 0;
        let mut best_score: i64 = Self::passenger_score(&pool[0], group, preferred);
        let mut i: usize = 1;
        while i < pool.len()
            invariant
                1 <= i <= pool.len(),
                best_idx < pool.len(),
                preferred == preferred_gender(group@),
                best_score == score(pool@[best_idx as int], group@),
                best_passenger(pool@, group@) == best_from(pool@, group@, i as int, best_idx as int),
            decreases pool.len() - i,
        {
            let s = Self::passenger_score(&pool[i], group, preferred);
            if s > best_score {
                best_score = s;
                best_idx = i;
            }
            i += 1;
        }
        best_idx
    }

    /// Seats passengers from `pool` until the vehicle is full or the pool is empty.
    fn fill_vehicle(group: &mut TransportGroup, pool: &mut Vec<Person>)
        ensures
            (final(group)@, final(pool)@) == fill(old(group)@, old(pool)@),
    {
        while group.capacity > 0 && group.passengers.len() < group.capacity - 1 && pool.len() > 0
            invariant
                fill(old(group)@, old(pool)@) == fill(group@, pool@),
            decreases pool.len(),
        {
            let i = Self::find_best_passenger(pool, group);
            let ghost g = group@;
            let ghost before = pool@;
            let p = pool.remove(i);
            group.passengers.push(p);
            proof {
                assert(group@ == seat(g, before[i as int]));
                assert(pool@ == before.remove(i as int));
            }
        }
    }

    /// The minibuses ordered by descending seat count, equals kept in their
    /// inventory order.
    fn fleet_by_size(minibuses: &[Minibus]) -> (r: Vec<Minibus>)
        ensures
            r@ == by_size(minibuses@),
    {
        let mut fleet: Vec<Minibus> = Vec::new();
        let mut k: usize = 0;
        while k < minibuses.len()
            invariant
                k <= minibuses.len(),
                fleet@ == by_size(minibuses@.take(k as int)),
            decreases minibuses.len() - k,
        {
            let m = minibuses[k].duplicate();
            let mut j: usize = 0;
            while j < fleet.len() && fleet[j].seats >= m.seats
                invariant
                    j <= fleet.len(),
                    slot_for(fleet@, m, 0) == slot_for(fleet@, m, j as int),
                decreases fleet.len() - j,
            {
                j += 1;
            }
            proof {
                assert(minibuses@.take(k + 1).drop_last() =~= minibuses@.take(k as int));
            }
            fleet.insert(j, m);
            k += 1;
        }
        proof {
            assert(minibuses@.take(k as int) =~= minibuses@);
        }
        fleet
    }

    /// The minibus phase of one cohort: while more than one person is unseated
    /// and a minibus is free, crew the next minibus and fill it.
    fn fill_minibuses(
        people: &mut Vec<Person>,
        fleet: &Vec<Minibus>,
        next: &mut usize,
        wants_to_drive: &HashSet<String>,
        dest: Destination,
        time: &String,
        out: &mut Vec<TransportGroup>,
    )
        requires
            *old(next) <= fleet.len(),
        ensures
            *final(next) <= fleet.len(),
            ({
                let m = minibus_phase(old(people)@, fleet@.subrange(*old(next) as int, fleet.len() as int), id_set(wants_to_drive@), dest, time@);
                &&& views(final(out)@) == views(old(out)@) + m.groups
                &&& final(people)@ == m.unseated
                &&& fleet@.subrange(*final(next) as int, fleet.len() as int) == m.fleet
            }),
    {
        let ghost w = id_set(wants_to_drive@);
        let ghost total = minibus_phase(people@, fleet@.subrange(*next as int, fleet.len() as int), w, dest, time@);
        let mut stalled = false;
        while !stalled && people.len() > 1 && *next < fleet.len()
            invariant
                *next <= fleet.len(),
                w == id_set(wants_to_drive@),
                ({
                    let m = minibus_phase(people@, fleet@.subrange(*next as int, fleet.len() as int), w, dest, time@);
                    &&& views(out@) + m.groups == views(old(out)@) + total.groups
                    &&& m.unseated == total.unseated
                    &&& m.fleet == total.fleet
                    &&& stalled ==> m.groups == Seq::<GroupView>::empty() && m.unseated == people@
                        && m.fleet == fleet@.subrange(*next as int, fleet.len() as int)
                }),
            decreases fleet.len() - *next + if stalled { 0int } else { 1int },
        {
            let found = match Self::find_willing_minibus_driver(people, wants_to_drive, true) {
                Some(d) => Some(d),
                None => Self::find_willing_minibus_driver(people, wants_to_drive, false),
            };
            assert(index_of(found) == minibus_driver(people@, w));
            match found {
                Some(d) => {
                    let ghost pool = people@;
                    let ghost rest_fleet = fleet@.subrange(*next as int, fleet.len() as int);
                    let ghost before = views(out@);
                    proof {
                        lemma_minibus_driver_in_range(pool, w);
                    }
                    let driver = people.remove(d);
                    let mb = &fleet[*next];
                    let mut label = String::from_str("Minibus ");
                    label.append(mb.registration.as_str());
                    let mut group = TransportGroup {
                        driver,
                        vehicle_label: label,
                        passengers: Vec::new(),
                        capacity: mb.seats as usize,
                        pickup_location: String::from_str("Pleasance"),
                        destination: dest,
                        departure_time: time.clone(),
                    };
                    assert(group@ == minibus_group(pool[d as int], rest_fleet[0], dest, time@)) by {
                        assert(group@.passengers =~= Seq::<Person>::empty());
                    }
                    Self::fill_vehicle(&mut group, people);
                    let ghost g = group@;
                    out.push(group);
                    *next = *next + 1;
                    proof {
                        assert(fleet@.subrange(*next as int, fleet.len() as int) =~= rest_fleet.drop_first());
                        assert(views(out@) =~= before.push(g));
                        let m = minibus_phase(people@, fleet@.subrange(*next as int, fleet.len() as int), w, dest, time@);
                        assert(before + (seq![g] + m.groups) =~= before.push(g) + m.groups);
                    }
                },
                None => {
                    stalled = true;
                },
            }
        }
    }

    /// The car phase of one cohort: while anyone is unseated and a car owner
    /// remains, put the chosen owner at the wheel and fill the car.
    fn fill_cars(
        people: &mut Vec<Person>,
        wants_to_drive: &HashSet<String>,
        dest: Destination,
        time: &String,
        out: &mut Vec<TransportGroup>,
    )
        ensures
            ({
                let c = car_phase(old(people)@, id_set(wants_to_drive@), dest, time@);
                &&& views(final(out)@) == views(old(out)@) + c.0
                &&& final(people)@ == c.1
            }),
    {
        let ghost w = id_set(wants_to_drive@);
        let ghost total = car_phase(people@, w, dest, time@);
        let mut stalled = false;
        while !stalled && people.len() > 0
            invariant
                w == id_set(wants_to_drive@),
                ({
                    let c = car_phase(people@, w, dest, time@);
                    &&& views(out@) + c.0 == views(old(out)@) + total.0
                    &&& c.1 == total.1
                    &&& stalled ==> c.0 == Seq::<GroupView>::empty() && c.1 == people@
                }),
            decreases people.len() + if stalled { 0int } else { 1int },
        {
            let found = match Self::find_willing_car_driver(people, wants_to_drive, true) {
                Some(d) => Some(d),
                None => Self::find_willing_car_driver(people, wants_to_drive, false),
            };
            assert(index_of(found) == car_driver(people@, w));
            match found {
                Some(d) => {
                    let ghost pool = people@;
                    let ghost before = views(out@);
                    proof {
                        lemma_car_driver_in_range(pool, w);
                    }
                    let driver = people.remove(d);
                    let car = driver.car.as_ref().unwrap();
                    let mut label = String::from_str("Car ");
                    label.append(car.registration.as_str());
                    label.append(" (");
                    label.append(car.vehicle_type.as_str());
                    label.append(")");
                    let capacity = car.seats as usize;
                    let pickup = if driver.pickup_locations.len() > 0 {
                        driver.pickup_locations[0].clone()
                    } else {
                        String::from_str("Home")
                    };
                    let mut group = TransportGroup {
                        driver,
                        vehicle_label: label,
                        passengers: Vec::new(),
                        capacity,
                        pickup_location: pickup,
                        destination: dest,
                        departure_time: time.clone(),
                    };
                    assert(group@ == car_group(pool[d as int], dest, time@)) by {
                        assert(group@.passengers =~= Seq::<Person>::empty());
                    }
                    proof {
                        lemma_fill_shrinks(group@, people@);
                    }
                    Self::fill_vehicle(&mut group, people);
                    let ghost g = group@;
                    out.push(group);
                    proof {
                        assert(views(out@) =~= before.push(g));
                        let c = car_phase(people@, w, dest, time@);
                        assert(before + (seq![g] + c.0) =~= before.push(g) + c.0);
                    }
                },
                None => {
                    stalled = true;
                },
            }
        }
    }

    /// The cohort of `people`: its minibus phase, then its car phase.
    fn allocate_cohort(
        people: Vec<Person>,
        fleet: &Vec<Minibus>,
        next: &mut usize,
        wants_to_drive: &HashSet<String>,
        dest: Destination,
        time: &String,
        out: &mut Vec<TransportGroup>,
    )
        requires
            *old(next) <= fleet.len(),
        ensures
            *final(next) <= fleet.len(),
            ({
                let c = cohort(people@, fleet@.subrange(*old(next) as int, fleet.len() as int), id_set(wants_to_drive@), dest, time@);
                &&& views(final(out)@) == views(old(out)@) + c.groups
                &&& fleet@.subrange(*final(next) as int, fleet.len() as int) == c.fleet
            }),
    {
        let mut people = people;
        let ghost start = views(out@);
        Self::fill_minibuses(&mut people, fleet, next, wants_to_drive, dest, time, out);
        let ghost middle = views(out@);
        Self::fill_cars(&mut people, wants_to_drive, dest, time, out);
        proof {
            assert(views(out@) =~= start + (middle.subrange(start.len() as int, middle.len() as int) + views(out@).subrange(middle.len() as int, views(out@).len() as int)));
        }
    }

    /// The ids of everyone aboard any of `groups`: each driver, then their passengers.
    fn placed_id_list(groups: &Vec<TransportGroup>) -> (r: Vec<String>)
        ensures
            texts(r@) == placed_ids(views(groups@)),
    {
        let ghost gs = views(groups@);
        let mut placed: Vec<String> = Vec::new();
        let mut k: usize = 0;
        while k < groups.len()
            invariant
                k <= groups.len(),
                gs == views(groups@),
                texts(placed@) == placed_ids(gs.take(k as int)),
            decreases groups.len() - k,
        {
            let g = &groups[k];
            let ghost prefix = texts(placed@);
            let ghost earlier = placed@;
            placed.push(g.driver.student_id.clone());
            assert(texts(placed@) =~= prefix + seq![g.driver.student_id@] + ids(g.passengers@.take(0)));
            let mut j: usize = 0;
            while j < g.passengers.len()
                invariant
                    j <= g.passengers.len(),
                    texts(placed@) == prefix + seq![g.driver.student_id@] + ids(g.passengers@.take(j as int)),
                decreases g.passengers.len() - j,
            {
                let ghost earlier = placed@;
                placed.push(g.passengers[j].student_id.clone());
                proof {
                    assert(texts(placed@) =~= texts(earlier).push(g.passengers@[j as int].student_id@));
                    assert(ids(g.passengers@.take(j + 1)) =~= ids(g.passengers@.take(j as int)).push(g.passengers@[j as int].student_id@));
                    assert(texts(placed@) =~= prefix + seq![g.driver.student_id@] + ids(g.passengers@.take(j + 1)));
                }
                j += 1;
            }
            proof {
                assert(g.passengers@.take(j as int) =~= g.passengers@);
                let f = |x: GroupView| group_ids(x);
                assert(gs.take(k + 1).map_values(f) =~= gs.take(k as int).map_values(f).push(group_ids(gs[k as int])));
                gs.take(k as int).map_values(f).lemma_flatten_push(group_ids(gs[k as int]));
                assert(texts(placed@) =~= prefix + group_ids(gs[k as int]));
            }
            k += 1;
        }
        proof {
            assert(gs.take(k as int) =~= gs);
        }
        placed
    }

    /// Whether `list` holds a string equal to `id`.
    fn holds_id(list: &Vec<String>, id: &String) -> (r: bool)
        ensures
            r == texts(list@).contains(id@),
    {
        let mut k: usize = 0;
        while k < list.len()
            invariant
                k <= list.len(),
                forall|j: int| 0 <= j < k ==> list@[j]@ != id@,
            decreases list.len() - k,
        {
            if list[k] == *id {
                assert(texts(list@)[k as int] == id@);
                return true;
            }
            k += 1;
        }
        false
    }

    /// Seats every requester of every cohort, cohorts in request order against
    /// one shared fleet of minibuses taken largest first.
    ///
    /// Returns the groups in the order they were formed if everyone requested
    /// got a seat; otherwise the names of all who did not, in request order.
    pub fn assign_transport_global(
        requests: Vec<(Destination, String, Vec<Person>)>,
        minibuses: &[Minibus],
        wants_to_drive: &HashSet<String>,
    ) -> (r: Result<Vec<TransportGroup>, Vec<String>>)
        ensures
            outcome(r) == allocation(requests@, minibuses@, id_set(wants_to_drive@)),
    {
        let ghost reqs = requests@;
        let ghost w = id_set(wants_to_drive@);
        // The ids and names of everyone requested, in order.
        let ghost f = |r: (Destination, String, Vec<Person>)| r.2@;
        let ghost mut seen: Seq<Person> = Seq::empty();
        let mut req_ids: Vec<String> = Vec::new();
        let mut req_names: Vec<String> = Vec::new();
        let mut k: usize = 0;
        while k < requests.len()
            invariant
                k <= requests.len(),
                reqs == requests@,
                f == (|r: (Destination, String, Vec<Person>)| r.2@),
                seen == reqs.take(k as int).map_values(f).flatten(),
                texts(req_ids@) == ids(seen),
                req_names@.len() == seen.len(),
                forall|j: int| 0 <= j < seen.len() ==> #[trigger] req_names@[j]@ == seen[j].name@,
            decreases requests.len() - k,
        {
            let people = &requests[k].2;
            let ghost prefix = seen;
            let mut j: usize = 0;
            while j < people.len()
                invariant
                    j <= people.len(),
                    seen == prefix + people@.take(j as int),
                    texts(req_ids@) == ids(seen),
                    req_names@.len() == seen.len(),
                    forall|i: int| 0 <= i < seen.len() ==> #[trigger] req_names@[i]@ == seen[i].name@,
                decreases people.len() - j,
            {
                let ghost earlier = req_ids@;
                req_ids.push(people[j].student_id.clone());
                req_names.push(people[j].name.clone());
                proof {
                    assert(texts(req_ids@) =~= texts(earlier).push(people@[j as int].student_id@));
                    assert(prefix + people@.take(j + 1) =~= seen.push(people@[j as int]));
                    seen = seen.push(people@[j as int]);
                    assert(texts(req_ids@) =~= ids(seen));
                }
                j += 1;
            }
            proof {
                assert(people@.take(j as int) =~= people@);
                assert(reqs.take(k + 1).map_values(f) =~= reqs.take(k as int).map_values(f).push(people@));
                reqs.take(k as int).map_values(f).lemma_flatten_push(people@);
            }
            k += 1;
        }
        proof {
            assert(reqs.take(k as int) =~= reqs);
        }

        let fleet = Self::fleet_by_size(minibuses);
        let mut next: usize = 0;
        let mut groups: Vec<TransportGroup> = Vec::new();
        let mut pending = requests;
        proof {
            assert(fleet@.subrange(0, fleet.len() as int) =~= fleet@);
        }
        while pending.len() > 0
            invariant
                next <= fleet.len(),
                fleet@ == by_size(minibuses@),
                w == id_set(wants_to_drive@),
                views(groups@) + plan(pending@, fleet@.subrange(next as int, fleet.len() as int), w) == plan(reqs, fleet@, w),
            decreases pending.len(),
        {
            let ghost before = views(groups@);
            let ghost rest = pending@;
            let (dest, time, people) = pending.remove(0);
            let ghost c = cohort(people@, fleet@.subrange(next as int, fleet.len() as int), w, dest, time@);
            Self::allocate_cohort(people, &fleet, &mut next, wants_to_drive, dest, &time, &mut groups);
            proof {
                assert(pending@ =~= rest.drop_first());
                assert(before + (c.groups + plan(pending@, c.fleet, w)) =~= (before + c.groups) + plan(pending@, c.fleet, w));
            }
        }
        proof {
            assert(views(groups@) =~= views(groups@) + Seq::<GroupView>::empty());
        }

        // Everyone requested must be aboard some vehicle.
        let placed = Self::placed_id_list(&groups);
        let ghost all = requested(reqs);
        let mut unallocated: Vec<String> = Vec::new();
        let mut j: usize = 0;
        while j < req_ids.len()
            invariant
                j <= req_ids.len(),
                all == seen,
                texts(req_ids@) == ids(all),
                req_ids@.len() == all.len(),
                req_names@.len() == all.len(),
                forall|i: int| 0 <= i < all.len() ==> #[trigger] req_names@[i]@ == all[i].name@,
                texts(unallocated@) == missing_names(all.take(j as int), texts(placed@)),
            decreases req_ids.len() - j,
        {
            proof {
                assert(all.take(j + 1).drop_last() =~= all.take(j as int));
                assert(ids(all)[j as int] == all[j as int].student_id@);
            }
            if !Self::holds_id(&placed, &req_ids[j]) {
                unallocated.push(req_names[j].clone());
                proof {
                    assert(texts(unallocated@) =~= missing_names(all.take(j + 1), texts(placed@)));
                }
            }
            j += 1;
        }
        proof {
            assert(all.take(j as int) =~= all);
        }
        if unallocated.len() == 0 {
            Ok(groups)
        } else {
            Err(unallocated)
        }
    }
}

} // verus!
