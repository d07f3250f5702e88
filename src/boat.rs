//! Boats on the planning board, the checks made before publishing, and how
//! their crews become transport requests.
use vstd::prelude::*;

use crate::models::{Destination, Person};
use crate::plan::first_from;
use crate::state::{has_id, SystemState};
use crate::text::{trim_of, trimmed};

verus! {

/// Boat classes, by the number of seats they carry.
#[derive(Clone, Copy, Debug, PartialEq, Eq, Structural)]
pub enum BoatType {
    Single,
    Double,
    Pair,
    Quad,
    Four,
    FourCoxed,
    EightCoxed,
}

impl BoatType {
    pub open spec fn spec_seat_count(self) -> nat {
        match self {
            BoatType::Single => 1,
            BoatType::Double | BoatType::Pair => 2,
            BoatType::Quad | BoatType::Four => 4,
            BoatType::FourCoxed => 5,
            BoatType::EightCoxed => 9,
        }
    }

    pub open spec fn spec_label(self) -> Seq<char> {
        match self {
            BoatType::Single => "1x"@,
            BoatType::Double => "2x"@,
            BoatType::Pair => "2-"@,
            BoatType::Quad => "4x-"@,
            BoatType::Four => "4-"@,
            BoatType::FourCoxed => "4+"@,
            BoatType::EightCoxed => "8+"@,
        }
    }

    /// Seats in a boat of this class, cox included.
    pub fn seat_count(&self) -> (r: usize)
        ensures
            r == self.spec_seat_count(),
    {
        match self {
            BoatType::Single => 1,
            BoatType::Double | BoatType::Pair => 2,
            BoatType::Quad | BoatType::Four => 4,
            BoatType::FourCoxed => 5,
            BoatType::EightCoxed => 9,
        }
    }

    /// The class's short rowing notation.
    pub fn label(&self) -> (r: &'static str)
        ensures
            r@ == self.spec_label(),
    {
        match self {
            BoatType::Single => "1x",
            BoatType::Double => "2x",
            BoatType::Pair => "2-",
            BoatType::Quad => "4x-",
            BoatType::Four => "4-",
            BoatType::FourCoxed => "4+",
            BoatType::EightCoxed => "8+",
        }
    }
}

/// A boat on the planning board: each seat empty or holding a member's id,
/// with the boat's departure time and venue.
#[derive(Clone, Debug)]
pub struct Boat {
    pub boat_type: BoatType,
    pub seats: Vec<Option<String>>,
    pub departure_time: String,
    pub destination: Option<Destination>,
}

impl Boat {
    /// A boat of the given class with every seat empty, no time and no venue.
    pub fn new(boat_type: BoatType) -> (r: Boat)
        ensures
            r.boat_type == boat_type,
            r.seats@.len() == boat_type.spec_seat_count(),
            forall|i: int| 0 <= i < r.seats@.len() ==> r.seats@[i] is None,
            r.departure_time@.len() == 0,
            r.destination is None,
    {
        let n = boat_type.seat_count();
        let mut seats: Vec<Option<String>> = Vec::new();
        let mut k: usize = 0;
        while k < n
            invariant
                k <= n,
                seats@.len() == k,
                forall|i: int| 0 <= i < k ==> seats@[i] is None,
            decreases n - k,
        {
            seats.push(None);
            k += 1;
        }
        Boat { boat_type, seats, departure_time: String::new(), destination: None }
    }
}

/// Why a board cannot be published yet.
#[derive(Clone, Copy, Debug, PartialEq, Eq, Structural)]
pub enum PlanProblem {
    MissingDepartureTime,
    MissingDestination,
    EmptySeat,
}

impl PlanProblem {
    pub open spec fn spec_message(self) -> Seq<char> {
        match self {
            PlanProblem::MissingDepartureTime => "Error: All boat departure times must be entered."@,
            PlanProblem::MissingDestination => "Error: All destination locations must be selected."@,
            PlanProblem::EmptySeat => "Error: All boat seats must be filled."@,
        }
    }

    /// The message shown to the operator.
    pub fn message(&self) -> (r: &'static str)
        ensures
            r@ == self.spec_message(),
    {
        match self {
            PlanProblem::MissingDepartureTime => "Error: All boat departure times must be entered.",
            PlanProblem::MissingDestination => "Error: All destination locations must be selected.",
            PlanProblem::EmptySeat => "Error: All boat seats must be filled.",
        }
    }
}

/// Whether a boat's departure time is blank.
pub open spec fn time_blank(b: Boat) -> bool {
    trim_of(b.departure_time@).len() == 0
}

/// Whether a boat has an empty seat.
pub open spec fn has_empty_seat(b: Boat) -> bool {
    exists|i: int| 0 <= i < b.seats@.len() && b.seats@[i] is None
}

/// The first problem of a board, checked in order: blank departure times,
/// then missing venues, then empty seats.
pub open spec fn plan_problem(boats: Seq<Boat>) -> Option<PlanProblem> {
    if exists|k: int| 0 <= k < boats.len() && time_blank(#[trigger] boats[k]) {
        Some(PlanProblem::MissingDepartureTime)
    } else if exists|k: int| 0 <= k < boats.len() && (#[trigger] boats[k]).destination is None {
        Some(PlanProblem::MissingDestination)
    } else if exists|k: int| 0 <= k < boats.len() && has_empty_seat(#[trigger] boats[k]) {
        Some(PlanProblem::EmptySeat)
    } else {
        None
    }
}

/// Checks that every boat has a departure time, a venue and a full crew.
pub fn validate_boats(boats: &Vec<Boat>) -> (r: Result<(), PlanProblem>)
    ensures
        match plan_problem(boats@) {
            Some(p) => r == Err::<(), PlanProblem>(p),
            None => r is Ok,
        },
{
    let mut k: usize = 0;
    while k < boats.len()
        invariant
            k <= boats.len(),
            forall|j: int| 0 <= j < k ==> !time_blank(#[trigger] boats@[j]),
        decreases boats.len() - k,
    {
        if trimmed(boats[k].departure_time.as_str()).is_empty() {
            assert(time_blank(boats@[k as int]));
            return Err(PlanProblem::MissingDepartureTime);
        }
        k += 1;
    }
    let mut k: usize = 0;
    while k < boats.len()
        invariant
            k <= boats.len(),
            forall|j: int| 0 <= j < boats.len() ==> !time_blank(#[trigger] boats@[j]),
            forall|j: int| 0 <= j < k ==> (#[trigger] boats@[j]).destination is Some,
        decreases boats.len() - k,
    {
        if boats[k].destination.is_none() {
            return Err(PlanProblem::MissingDestination);
        }
        k += 1;
    }
    let mut k: usize = 0;
    while k < boats.len()
        invariant
            k <= boats.len(),
            forall|j: int| 0 <= j < boats.len() ==> !time_blank(#[trigger] boats@[j]),
            forall|j: int| 0 <= j < boats.len() ==> (#[trigger] boats@[j]).destination is Some,
            forall|j: int| 0 <= j < k ==> !has_empty_seat(#[trigger] boats@[j]),
        decreases boats.len() - k,
    {
        let seats = &boats[k].seats;
        let mut i: usize = 0;
        while i < seats.len()
            invariant
                i <= seats.len(),
                k < boats.len(),
                seats == boats@[k as int].seats,
                forall|j: int| 0 <= j < boats.len() ==> !time_blank(#[trigger] boats@[j]),
                forall|j: int| 0 <= j < boats.len() ==> (#[trigger] boats@[j]).destination is Some,
                forall|j: int| 0 <= j < i ==> seats@[j] is Some,
            decreases seats.len() - i,
        {
            if seats[i].is_none() {
                assert(has_empty_seat(boats@[k as int]));
                return Err(PlanProblem::EmptySeat);
            }
            i += 1;
        }
        k += 1;
    }
    Ok(())
}

/// A transport request as a mathematical value: venue, departure time, riders.
pub type CohortRequest = (Destination, Seq<char>, Seq<Person>);

/// The members seated in a boat, in seat order; ids not on the books are skipped.
pub open spec fn crew_of(seats: Seq<Option<String>>, people: Seq<Person>) -> Seq<Person>
    decreases seats.len(),
{
    if seats.len() == 0 {
        seq![]
    } else {
        let rest = crew_of(seats.drop_last(), people);
        match seats.last() {
            Some(id) => match first_from(people, has_id(id@), 0) {
                Some(i) => rest.push(people[i]),
                None => rest,
            },
            None => rest,
        }
    }
}

/// The first request at or after `i` for venue `d` at time `t`.
pub open spec fn request_from(cs: Seq<CohortRequest>, d: Destination, t: Seq<char>, i: int) -> Option<int>
    decreases cs.len() - i,
{
    if i < 0 || i >= cs.len() {
        None
    } else if cs[i].0 == d && cs[i].1 == t {
        Some(i)
    } else {
        request_from(cs, d, t, i + 1)
    }
}

/// The requests of a board: one per venue and departure time, in order of
/// first appearance, each with the crews of its boats in board order.
pub open spec fn requests_of(boats: Seq<Boat>, people: Seq<Person>) -> Seq<CohortRequest>
    decreases boats.len(),
{
    if boats.len() == 0 {
        seq![]
    } else {
        let cs = requests_of(boats.drop_last(), people);
        let b = boats.last();
        let d = b.destination->Some_0;
        let t = b.departure_time@;
        let crew = crew_of(b.seats@, people);
        match request_from(cs, d, t, 0) {
            Some(k) => cs.update(k, (d, t, cs[k].2 + crew)),
            None => cs.push((d, t, crew)),
        }
    }
}

/// Whether two lists of people agree person by person.
pub open spec fn same_people(a: Seq<Person>, b: Seq<Person>) -> bool {
    a.len() == b.len() && forall|i: int| 0 <= i < a.len() ==> (#[trigger] a[i]).same_as(b[i])
}

/// Whether built requests agree with their mathematical description.
pub open spec fn requests_match(r: Seq<(Destination, String, Vec<Person>)>, cs: Seq<CohortRequest>) -> bool {
    &&& r.len() == cs.len()
    &&& forall|k: int| 0 <= k < r.len() ==> (#[trigger] r[k]).0 == cs[k].0 && r[k].1@ == cs[k].1 && same_people(r[k].2@, cs[k].2)
}

/// The members seated in `boat`, copied from the books.
fn crew_in(boat: &Boat, state: &SystemState) -> (r: Vec<Person>)
    ensures
        same_people(r@, crew_of(boat.seats@, state.people@)),
{
    let mut crew: Vec<Person> = Vec::new();
    let mut i: usize = 0;
    while i < boat.seats.len()
        invariant
            i <= boat.seats.len(),
            same_people(crew@, crew_of(boat.seats@.take(i as int), state.people@)),
        decreases boat.seats.len() - i,
    {
        proof {
            assert(boat.seats@.take(i + 1).drop_last() =~= boat.seats@.take(i as int));
        }
        if let Some(id) = &boat.seats[i] {
            if let Some(p) = state.get_person(id.as_str()) {
                crew.push(p.duplicate());
            }
        }
        i += 1;
    }
    proof {
        assert(boat.seats@.take(i as int) =~= boat.seats@);
    }
    crew
}

/// Groups the crews of a board into transport requests, one per venue and
/// departure time.
pub fn requests_from_boats(boats: &Vec<Boat>, state: &SystemState) -> (r: Vec<(Destination, String, Vec<Person>)>)
    requires
        forall|k: int| 0 <= k < boats.len() ==> (#[trigger] boats@[k]).destination is Some,
    ensures
        requests_match(r@, requests_of(boats@, state.people@)),
{
    let mut out: Vec<(Destination, String, Vec<Person>)> = Vec::new();
    let mut k: usize = 0;
    while k < boats.len()
        invariant
            k <= boats.len(),
            forall|j: int| 0 <= j < boats.len() ==> (#[trigger] boats@[j]).destination is Some,
            requests_match(out@, requests_of(boats@.take(k as int), state.people@)),
        decreases boats.len() - k,
    {
        let ghost cs = requests_of(boats@.take(k as int), state.people@);
        proof {
            assert(boats@.take(k + 1).drop_last() =~= boats@.take(k as int));
        }
        let boat = &boats[k];
        let dest = boat.destination.unwrap();
        let mut crew = crew_in(boat, state);
        let mut j: usize = 0;
        let mut found: Option<usize> = None;
        while j < out.len() && found.is_none()
            invariant
                j <= out.len(),
                requests_match(out@, cs),
                found matches Some(f) ==> f < out.len() && out@[f as int].0 == dest && out@[f as int].1@ == boat.departure_time@
                    && request_from(cs, dest, boat.departure_time@, 0) == Some(f as int),
                found is None ==> request_from(cs, dest, boat.departure_time@, 0) == request_from(cs, dest, boat.departure_time@, j as int),
            decreases out.len() - j + if found is None { 1int } else { 0int },
        {
            if out[j].0 == dest && out[j].1 == boat.departure_time {
                found = Some(j);
            } else {
                j += 1;
            }
        }
        let ghost crew_model = crew_of(boat.seats@, state.people@);
        match found {
            Some(f) => {
                let ghost old_out = out@;
                let (d, t, mut riders) = out.remove(f);
                let ghost before = riders@;
                riders.append(&mut crew);
                let ghost entry = (d, t, riders);
                out.insert(f, (d, t, riders));
                proof {
                    assert(out@ =~= old_out.update(f as int, entry));
                    let ncs = cs.update(f as int, (dest, boat.departure_time@, cs[f as int].2 + crew_model));
                    assert forall|i: int| 0 <= i < out@.len() implies (#[trigger] out@[i]).0 == ncs[i].0 && out@[i].1@ == ncs[i].1 && same_people(out@[i].2@, ncs[i].2) by {
                        if i == f {
                            assert forall|x: int| 0 <= x < out@[i].2@.len() implies (#[trigger] out@[i].2@[x]).same_as(ncs[i].2[x]) by {
                                if x < before.len() {
                                    assert(out@[i].2@[x] == before[x]);
                                } else {
                                    assert(ncs[i].2[x] == crew_model[x - before.len()]);
                                }
                            }
                        }
                    }
                }
            },
            None => {
                proof {
                    assert(j == out.len());
                }
                out.push((dest, boat.departure_time.clone(), crew));
            },
        }
        k += 1;
    }
    proof {
        assert(boats@.take(k as int) =~= boats@);
    }
    out
}

} // verus!
