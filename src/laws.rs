//! Properties of every allocation: nobody seated twice, no vehicle over
//! capacity, everyone requested seated on success, and the boundary cases.
use vstd::multiset::Multiset;
use vstd::prelude::*;

use crate::allocation::{outcome, TransportGroup};
use crate::models::{Destination, Minibus, Person};
use crate::plan::{
    allocation, car_driver, car_group, car_phase, cohort, fill, group_ids, ids,
    lemma_best_from_in_range, lemma_car_driver_in_range, lemma_minibus_driver_in_range, minibus_driver,
    minibus_group, minibus_phase, best_passenger, placed_ids, plan, requested, seat, GroupView,
    by_size, missing_names, car_seats, slot_for, largest_from, owner_pred,
};

verus! {

broadcast use vstd::seq_lib::group_to_multiset_ensures, vstd::multiset::group_multiset_axioms;

proof fn lemma_ids_remove(s: Seq<Person>, i: int)
    requires
        0 <= i < s.len(),
    ensures
        ids(s.remove(i)).to_multiset().insert(s[i].student_id@) == ids(s).to_multiset(),
{
    assert(ids(s.remove(i)) =~= ids(s).remove(i));
    assert(ids(s)[i] == s[i].student_id@);
    assert(ids(s).to_multiset().remove(ids(s)[i]).insert(ids(s)[i]) =~= ids(s).to_multiset());
}

/// Seating passengers moves ids from the pool into the vehicle, losing none
/// and adding none.
proof fn lemma_fill_conserves(g: GroupView, pool: Seq<Person>)
    ensures
        ({
            let (h, rest) = fill(g, pool);
            &&& group_ids(h).to_multiset().add(ids(rest).to_multiset())
                == group_ids(g).to_multiset().add(ids(pool).to_multiset())
            &&& h.driver == g.driver
            &&& h.capacity == g.capacity
        }),
    decreases pool.len(),
{
    if g.passengers.len() + 1 < g.capacity && pool.len() > 0 {
        let i = best_passenger(pool, g);
        lemma_best_from_in_range(pool, g, 1, 0);
        let g2 = seat(g, pool[i]);
        lemma_fill_conserves(g2, pool.remove(i));
        assert(group_ids(g2) =~= group_ids(g).push(pool[i].student_id@));
        lemma_ids_remove(pool, i);
        assert(group_ids(g2).to_multiset().add(ids(pool.remove(i)).to_multiset())
            =~= group_ids(g).to_multiset().add(ids(pool).to_multiset()));
    }
}

proof fn lemma_placed_concat(a: Seq<GroupView>, b: Seq<GroupView>)
    ensures
        placed_ids(a + b) == placed_ids(a) + placed_ids(b),
{
    let f = |g: GroupView| group_ids(g);
    assert((a + b).map_values(f) =~= a.map_values(f) + b.map_values(f));
    vstd::seq_lib::lemma_flatten_concat(a.map_values(f), b.map_values(f));
}

proof fn lemma_placed_single(g: GroupView)
    ensures
        placed_ids(seq![g]) == group_ids(g),
{
    let f = |x: GroupView| group_ids(x);
    assert(seq![g].map_values(f) =~= seq![group_ids(g)]);
    seq![group_ids(g)].lemma_flatten_singleton();
}

proof fn lemma_placed_cons(g: GroupView, gs: Seq<GroupView>)
    ensures
        placed_ids(seq![g] + gs).to_multiset() == group_ids(g).to_multiset().add(placed_ids(gs).to_multiset()),
{
    lemma_placed_concat(seq![g], gs);
    lemma_placed_single(g);
    vstd::seq_lib::lemma_multiset_commutative(group_ids(g), placed_ids(gs));
}

proof fn lemma_singleton_ids(g: GroupView, id: Seq<char>, rest: Multiset<Seq<char>>)
    requires
        g.passengers.len() == 0,
        g.driver.student_id@ == id,
    ensures
        group_ids(g).to_multiset().add(rest) == rest.insert(id),
{
    assert(group_ids(g) =~= Seq::<Seq<char>>::empty().push(id));
    assert(group_ids(g).to_multiset() =~= Multiset::<Seq<char>>::empty().insert(id));
    assert(group_ids(g).to_multiset().add(rest) =~= rest.insert(id));
}

/// The minibus phase seats people without losing or adding anyone.
proof fn lemma_minibus_phase_conserves(people: Seq<Person>, fleet: Seq<Minibus>, w: Set<Seq<char>>, d: Destination, t: Seq<char>)
    ensures
        ({
            let m = minibus_phase(people, fleet, w, d, t);
            placed_ids(m.groups).to_multiset().add(ids(m.unseated).to_multiset()) == ids(people).to_multiset()
        }),
    decreases fleet.len(),
{
    let m = minibus_phase(people, fleet, w, d, t);
    if people.len() > 1 && fleet.len() > 0 && minibus_driver(people, w) is Some {
        let di = minibus_driver(people, w)->Some_0;
        lemma_minibus_driver_in_range(people, w);
        let g0 = minibus_group(people[di], fleet[0], d, t);
        let (g, rest) = fill(g0, people.remove(di));
        lemma_fill_conserves(g0, people.remove(di));
        lemma_minibus_phase_conserves(rest, fleet.drop_first(), w, d, t);
        let next = minibus_phase(rest, fleet.drop_first(), w, d, t);
        lemma_placed_cons(g, next.groups);
        lemma_ids_remove(people, di);
        assert(m.groups == seq![g] + next.groups);
        assert(m.unseated == next.unseated);
        lemma_singleton_ids(g0, people[di].student_id@, ids(people.remove(di)).to_multiset());
        assert(placed_ids(m.groups).to_multiset().add(ids(m.unseated).to_multiset()) =~= ids(people).to_multiset());
    } else {
        assert(placed_ids(m.groups) =~= Seq::<Seq<char>>::empty());
        assert(placed_ids(m.groups).to_multiset().add(ids(m.unseated).to_multiset()) =~= ids(people).to_multiset());
    }
}

/// The car phase seats people without losing or adding anyone.
proof fn lemma_car_phase_conserves(people: Seq<Person>, w: Set<Seq<char>>, d: Destination, t: Seq<char>)
    ensures
        ({
            let c = car_phase(people, w, d, t);
            placed_ids(c.0).to_multiset().add(ids(c.1).to_multiset()) == ids(people).to_multiset()
        }),
    decreases people.len(),
{
    let c = car_phase(people, w, d, t);
    if people.len() > 0 && car_driver(people, w) is Some {
        let di = car_driver(people, w)->Some_0;
        lemma_car_driver_in_range(people, w);
        let g0 = car_group(people[di], d, t);
        let (g, rest) = fill(g0, people.remove(di));
        lemma_fill_conserves(g0, people.remove(di));
        crate::plan::lemma_fill_shrinks(g0, people.remove(di));
        lemma_car_phase_conserves(rest, w, d, t);
        let next = car_phase(rest, w, d, t);
        lemma_placed_cons(g, next.0);
        lemma_ids_remove(people, di);
        assert(c.0 == seq![g] + next.0);
        assert(c.1 == next.1);
        lemma_singleton_ids(g0, people[di].student_id@, ids(people.remove(di)).to_multiset());
        assert(placed_ids(c.0).to_multiset().add(ids(c.1).to_multiset()) =~= ids(people).to_multiset());
    } else {
        assert(placed_ids(c.0) =~= Seq::<Seq<char>>::empty());
        assert(placed_ids(c.0).to_multiset().add(ids(c.1).to_multiset()) =~= ids(people).to_multiset());
    }
}

proof fn lemma_cohort_conserves(people: Seq<Person>, fleet: Seq<Minibus>, w: Set<Seq<char>>, d: Destination, t: Seq<char>)
    ensures
        ({
            let c = cohort(people, fleet, w, d, t);
            placed_ids(c.groups).to_multiset().add(ids(c.unseated).to_multiset()) == ids(people).to_multiset()
        }),
{
    let m = minibus_phase(people, fleet, w, d, t);
    lemma_minibus_phase_conserves(people, fleet, w, d, t);
    lemma_car_phase_conserves(m.unseated, w, d, t);
    let c = car_phase(m.unseated, w, d, t);
    lemma_placed_concat(m.groups, c.0);
    vstd::seq_lib::lemma_multiset_commutative(placed_ids(m.groups), placed_ids(c.0));
    let cv = cohort(people, fleet, w, d, t);
    assert(placed_ids(cv.groups).to_multiset().add(ids(cv.unseated).to_multiset()) =~= ids(people).to_multiset());
}

proof fn lemma_requested_cons(reqs: Seq<(Destination, String, Vec<Person>)>)
    requires
        reqs.len() > 0,
    ensures
        requested(reqs) == reqs[0].2@ + requested(reqs.drop_first()),
{
    let f = |r: (Destination, String, Vec<Person>)| r.2@;
    assert(reqs.map_values(f).drop_first() =~= reqs.drop_first().map_values(f));
}

/// Every id aboard some vehicle was requested, at most as often as requested.
proof fn lemma_plan_within_requests(reqs: Seq<(Destination, String, Vec<Person>)>, fleet: Seq<Minibus>, w: Set<Seq<char>>)
    ensures
        placed_ids(plan(reqs, fleet, w)).to_multiset().subset_of(ids(requested(reqs)).to_multiset()),
    decreases reqs.len(),
{
    if reqs.len() == 0 {
        assert(placed_ids(plan(reqs, fleet, w)) =~= Seq::<Seq<char>>::empty());
    } else {
        let c = cohort(reqs[0].2@, fleet, w, reqs[0].0, reqs[0].1@);
        lemma_cohort_conserves(reqs[0].2@, fleet, w, reqs[0].0, reqs[0].1@);
        lemma_plan_within_requests(reqs.drop_first(), c.fleet, w);
        lemma_placed_concat(c.groups, plan(reqs.drop_first(), c.fleet, w));
        vstd::seq_lib::lemma_multiset_commutative(placed_ids(c.groups), placed_ids(plan(reqs.drop_first(), c.fleet, w)));
        lemma_requested_cons(reqs);
        assert(ids(requested(reqs)) =~= ids(reqs[0].2@) + ids(requested(reqs.drop_first())));
        vstd::seq_lib::lemma_multiset_commutative(ids(reqs[0].2@), ids(requested(reqs.drop_first())));
    }
}

/// Nobody is seated twice: when the requests name each id once, no id is
/// aboard two vehicles, nor twice in one.
pub proof fn no_id_placed_twice(reqs: Seq<(Destination, String, Vec<Person>)>, minibuses: Seq<Minibus>, wants: Set<Seq<char>>)
    requires
        ids(requested(reqs)).no_duplicates(),
    ensures
        allocation(reqs, minibuses, wants) matches Ok(gs) ==> placed_ids(gs).no_duplicates(),
{
    let gs = plan(reqs, by_size(minibuses), wants);
    lemma_plan_within_requests(reqs, by_size(minibuses), wants);
    ids(requested(reqs)).lemma_multiset_has_no_duplicates();
    assert forall|x: Seq<char>| placed_ids(gs).to_multiset().contains(x) implies placed_ids(gs).to_multiset().count(x) == 1 by {
        assert(ids(requested(reqs)).to_multiset().contains(x));
    }
    placed_ids(gs).lemma_multiset_has_no_duplicates_conv();
}

proof fn lemma_group_ids_distinct(gs: Seq<GroupView>, k: int)
    requires
        0 <= k < gs.len(),
        placed_ids(gs).no_duplicates(),
    ensures
        group_ids(gs[k]).no_duplicates(),
{
    let a = gs.take(k);
    let c = gs.skip(k + 1);
    assert(gs =~= a + seq![gs[k]] + c);
    lemma_placed_concat(a + seq![gs[k]], c);
    lemma_placed_concat(a, seq![gs[k]]);
    lemma_placed_single(gs[k]);
    let all = placed_ids(gs);
    let n = placed_ids(a).len();
    let b = group_ids(gs[k]);
    assert(all == placed_ids(a) + b + placed_ids(c));
    assert forall|i: int, j: int| 0 <= i < b.len() && 0 <= j < b.len() && i != j implies b[i] != b[j] by {
        assert(all[n + i] == b[i]);
        assert(all[n + j] == b[j]);
    }
}

/// No driver is also one of their own passengers, when the requests name
/// each id once.
pub proof fn driver_is_not_a_passenger(reqs: Seq<(Destination, String, Vec<Person>)>, minibuses: Seq<Minibus>, wants: Set<Seq<char>>)
    requires
        ids(requested(reqs)).no_duplicates(),
    ensures
        allocation(reqs, minibuses, wants) matches Ok(gs) ==> forall|k: int|
            0 <= k < gs.len() ==> !ids(#[trigger] gs[k].passengers).contains(gs[k].driver.student_id@),
{
    no_id_placed_twice(reqs, minibuses, wants);
    if let Ok(gs) = allocation(reqs, minibuses, wants) {
        assert forall|k: int| 0 <= k < gs.len() implies !ids(#[trigger] gs[k].passengers).contains(gs[k].driver.student_id@) by {
            lemma_group_ids_distinct(gs, k);
            let b = group_ids(gs[k]);
            if ids(gs[k].passengers).contains(gs[k].driver.student_id@) {
                let j = choose|j: int| 0 <= j < ids(gs[k].passengers).len() && ids(gs[k].passengers)[j] == gs[k].driver.student_id@;
                assert(b[0] == b[j + 1]);
            }
        }
    }
}

proof fn lemma_nothing_missing(people: Seq<Person>, placed: Seq<Seq<char>>)
    requires
        missing_names(people, placed).len() == 0,
    ensures
        forall|i: int| 0 <= i < people.len() ==> placed.contains(#[trigger] people[i].student_id@),
    decreases people.len(),
{
    if people.len() > 0 {
        lemma_nothing_missing(people.drop_last(), placed);
        assert forall|i: int| 0 <= i < people.len() implies placed.contains(#[trigger] people[i].student_id@) by {
            if i < people.len() - 1 {
                assert(people.drop_last()[i] == people[i]);
            }
        }
    }
}

/// On success the ids aboard are exactly the ids requested, as sets.
pub proof fn placed_ids_are_requested_ids(reqs: Seq<(Destination, String, Vec<Person>)>, minibuses: Seq<Minibus>, wants: Set<Seq<char>>)
    ensures
        allocation(reqs, minibuses, wants) matches Ok(gs) ==> placed_ids(gs).to_set() == ids(requested(reqs)).to_set(),
{
    if let Ok(gs) = allocation(reqs, minibuses, wants) {
        let all = requested(reqs);
        lemma_plan_within_requests(reqs, by_size(minibuses), wants);
        lemma_nothing_missing(all, placed_ids(gs));
        assert forall|x: Seq<char>| placed_ids(gs).to_set().contains(x) <==> ids(all).to_set().contains(x) by {
            if placed_ids(gs).contains(x) {
                assert(placed_ids(gs).to_multiset().contains(x));
                assert(ids(all).to_multiset().contains(x));
            }
            if ids(all).contains(x) {
                let i = choose|i: int| 0 <= i < ids(all).len() && ids(all)[i] == x;
                assert(all[i].student_id@ == x);
            }
        }
        assert(placed_ids(gs).to_set() =~= ids(all).to_set());
    }
}

/// Whether a person's car, if any, has a seat for its driver.
pub open spec fn car_has_seat(p: Person) -> bool {
    p.car is Some ==> car_seats(p) >= 1
}

/// Whether a vehicle holds no more than it has seats for, its driver included.
pub open spec fn within_capacity(g: GroupView) -> bool {
    g.passengers.len() + 1 <= g.capacity
}

proof fn lemma_remove_within(s: Seq<Person>, i: int)
    requires
        0 <= i < s.len(),
    ensures
        forall|x: Person| s.remove(i).contains(x) ==> s.contains(x),
{
    assert forall|x: Person| s.remove(i).contains(x) implies s.contains(x) by {
        let j = choose|j: int| 0 <= j < s.remove(i).len() && s.remove(i)[j] == x;
        if j < i {
            assert(s[j] == x);
        } else {
            assert(s[j + 1] == x);
        }
    }
}

proof fn lemma_fill_bounded(g: GroupView, pool: Seq<Person>)
    requires
        within_capacity(g),
    ensures
        within_capacity(fill(g, pool).0),
        forall|x: Person| fill(g, pool).1.contains(x) ==> pool.contains(x),
    decreases pool.len(),
{
    if g.passengers.len() + 1 < g.capacity && pool.len() > 0 {
        let i = best_passenger(pool, g);
        lemma_best_from_in_range(pool, g, 1, 0);
        lemma_fill_bounded(seat(g, pool[i]), pool.remove(i));
        lemma_remove_within(pool, i);
    }
}

proof fn lemma_minibus_phase_bounded(people: Seq<Person>, fleet: Seq<Minibus>, w: Set<Seq<char>>, d: Destination, t: Seq<char>)
    requires
        forall|j: int| 0 <= j < fleet.len() ==> #[trigger] fleet[j].seats >= 1,
    ensures
        ({
            let m = minibus_phase(people, fleet, w, d, t);
            &&& forall|k: int| 0 <= k < m.groups.len() ==> within_capacity(#[trigger] m.groups[k])
            &&& forall|x: Person| m.unseated.contains(x) ==> people.contains(x)
            &&& forall|j: int| 0 <= j < m.fleet.len() ==> #[trigger] m.fleet[j].seats >= 1
        }),
    decreases fleet.len(),
{
    if people.len() > 1 && fleet.len() > 0 && minibus_driver(people, w) is Some {
        let di = minibus_driver(people, w)->Some_0;
        lemma_minibus_driver_in_range(people, w);
        let g0 = minibus_group(people[di], fleet[0], d, t);
        let (g, rest) = fill(g0, people.remove(di));
        assert(fleet[0].seats >= 1);
        lemma_fill_bounded(g0, people.remove(di));
        lemma_remove_within(people, di);
        assert forall|j: int| 0 <= j < fleet.drop_first().len() implies #[trigger] fleet.drop_first()[j].seats >= 1 by {
            assert(fleet.drop_first()[j] == fleet[j + 1]);
        }
        lemma_minibus_phase_bounded(rest, fleet.drop_first(), w, d, t);
        let next = minibus_phase(rest, fleet.drop_first(), w, d, t);
        let m = minibus_phase(people, fleet, w, d, t);
        assert(m.groups == seq![g] + next.groups);
        assert forall|k: int| 0 <= k < m.groups.len() implies within_capacity(#[trigger] m.groups[k]) by {
            if k > 0 {
                assert(m.groups[k] == next.groups[k - 1]);
            }
        }
    }
}

proof fn lemma_car_phase_bounded(people: Seq<Person>, w: Set<Seq<char>>, d: Destination, t: Seq<char>)
    requires
        forall|x: Person| people.contains(x) ==> car_has_seat(x),
    ensures
        ({
            let c = car_phase(people, w, d, t);
            forall|k: int| 0 <= k < c.0.len() ==> within_capacity(#[trigger] c.0[k])
        }),
    decreases people.len(),
{
    if people.len() > 0 && car_driver(people, w) is Some {
        let di = car_driver(people, w)->Some_0;
        lemma_car_driver_in_range(people, w);
        let g0 = car_group(people[di], d, t);
        let (g, rest) = fill(g0, people.remove(di));
        assert(people.contains(people[di]));
        assert(car_has_seat(people[di]));
        assert(g0.capacity == car_seats(people[di]));
        lemma_fill_bounded(g0, people.remove(di));
        lemma_remove_within(people, di);
        crate::plan::lemma_fill_shrinks(g0, people.remove(di));
        lemma_car_phase_bounded(rest, w, d, t);
        let next = car_phase(rest, w, d, t);
        let c = car_phase(people, w, d, t);
        assert(c.0 == seq![g] + next.0);
        assert forall|k: int| 0 <= k < c.0.len() implies within_capacity(#[trigger] c.0[k]) by {
            if k > 0 {
                assert(c.0[k] == next.0[k - 1]);
            }
        }
    }
}

proof fn lemma_plan_bounded(reqs: Seq<(Destination, String, Vec<Person>)>, fleet: Seq<Minibus>, w: Set<Seq<char>>)
    requires
        forall|j: int| 0 <= j < fleet.len() ==> #[trigger] fleet[j].seats >= 1,
        forall|x: Person| requested(reqs).contains(x) ==> car_has_seat(x),
    ensures
        forall|k: int| 0 <= k < plan(reqs, fleet, w).len() ==> within_capacity(#[trigger] plan(reqs, fleet, w)[k]),
    decreases reqs.len(),
{
    if reqs.len() > 0 {
        let people = reqs[0].2@;
        let (d, t) = (reqs[0].0, reqs[0].1@);
        lemma_requested_cons(reqs);
        let rest = requested(reqs.drop_first());
        assert forall|x: Person| people.contains(x) implies car_has_seat(x) by {
            let i = choose|i: int| 0 <= i < people.len() && people[i] == x;
            assert(requested(reqs)[i] == x);
        }
        assert forall|x: Person| rest.contains(x) implies car_has_seat(x) by {
            let i = choose|i: int| 0 <= i < rest.len() && rest[i] == x;
            assert(requested(reqs)[people.len() + i] == x);
        }
        let m = minibus_phase(people, fleet, w, d, t);
        lemma_minibus_phase_bounded(people, fleet, w, d, t);
        lemma_car_phase_bounded(m.unseated, w, d, t);
        let c = cohort(people, fleet, w, d, t);
        lemma_plan_bounded(reqs.drop_first(), c.fleet, w);
        let later = plan(reqs.drop_first(), c.fleet, w);
        let cp = car_phase(m.unseated, w, d, t);
        assert forall|k: int| 0 <= k < plan(reqs, fleet, w).len() implies within_capacity(#[trigger] plan(reqs, fleet, w)[k]) by {
            let all = plan(reqs, fleet, w);
            assert(all == m.groups + cp.0 + later);
            if k < m.groups.len() {
                assert(all[k] == m.groups[k]);
            } else if k < m.groups.len() + cp.0.len() {
                assert(all[k] == cp.0[k - m.groups.len()]);
            } else {
                assert(all[k] == later[k - m.groups.len() - cp.0.len()]);
            }
        }
    }
}

proof fn lemma_slot_in_range(fleet: Seq<Minibus>, m: Minibus, j: int)
    requires
        0 <= j,
    ensures
        0 <= slot_for(fleet, m, j) <= fleet.len(),
    decreases fleet.len() - j,
{
    if j < fleet.len() && fleet[j].seats >= m.seats {
        lemma_slot_in_range(fleet, m, j + 1);
    }
}

proof fn lemma_by_size_seated(ms: Seq<Minibus>)
    requires
        forall|j: int| 0 <= j < ms.len() ==> #[trigger] ms[j].seats >= 1,
    ensures
        forall|j: int| 0 <= j < by_size(ms).len() ==> #[trigger] by_size(ms)[j].seats >= 1,
        by_size(ms).len() == ms.len(),
    decreases ms.len(),
{
    if ms.len() > 0 {
        let t = by_size(ms.drop_last());
        assert forall|j: int| 0 <= j < ms.drop_last().len() implies #[trigger] ms.drop_last()[j].seats >= 1 by {
            assert(ms.drop_last()[j] == ms[j]);
        }
        lemma_by_size_seated(ms.drop_last());
        lemma_slot_in_range(t, ms.last(), 0);
        let s = slot_for(t, ms.last(), 0);
        assert forall|j: int| 0 <= j < by_size(ms).len() implies #[trigger] by_size(ms)[j].seats >= 1 by {
            if j < s {
                assert(by_size(ms)[j] == t[j]);
            } else if j > s {
                assert(by_size(ms)[j] == t[j - 1]);
            }
        }
    }
}

/// No vehicle carries more than its seats allow, driver included, when every
/// minibus and every requester's car has at least one seat.
pub proof fn vehicles_within_capacity(reqs: Seq<(Destination, String, Vec<Person>)>, minibuses: Seq<Minibus>, wants: Set<Seq<char>>)
    requires
        forall|j: int| 0 <= j < minibuses.len() ==> #[trigger] minibuses[j].seats >= 1,
        forall|i: int| 0 <= i < requested(reqs).len() ==> car_has_seat(#[trigger] requested(reqs)[i]),
    ensures
        allocation(reqs, minibuses, wants) matches Ok(gs) ==> forall|k: int| 0 <= k < gs.len() ==> within_capacity(#[trigger] gs[k]),
{
    lemma_by_size_seated(minibuses);
    assert forall|x: Person| requested(reqs).contains(x) implies car_has_seat(x) by {
        let i = choose|i: int| 0 <= i < requested(reqs).len() && requested(reqs)[i] == x;
    }
    lemma_plan_bounded(reqs, by_size(minibuses), wants);
}

/// The outcome depends on the requests (people and their order), the
/// minibuses (and their order) and the opt-in set alone: two runs on the same
/// inputs return the same groups, or the same names.
pub proof fn same_inputs_same_outcome(
    first: Result<Vec<TransportGroup>, Vec<String>>,
    second: Result<Vec<TransportGroup>, Vec<String>>,
    reqs: Seq<(Destination, String, Vec<Person>)>,
    minibuses: Seq<Minibus>,
    wants: Set<Seq<char>>,
)
    requires
        outcome(first) == allocation(reqs, minibuses, wants),
        outcome(second) == allocation(reqs, minibuses, wants),
    ensures
        outcome(first) == outcome(second),
{
}

/// A single cohort of one requester who owns no car fails with that person's
/// name alone: a minibus needs two people, and nobody can drive a car.
pub proof fn lone_rider_without_car_fails(reqs: Seq<(Destination, String, Vec<Person>)>, minibuses: Seq<Minibus>, wants: Set<Seq<char>>)
    requires
        reqs.len() == 1,
        reqs[0].2@.len() == 1,
        reqs[0].2@[0].car is None,
    ensures
        allocation(reqs, minibuses, wants) == Err::<Seq<GroupView>, Seq<Seq<char>>>(seq![reqs[0].2@[0].name@]),
{
    let people = reqs[0].2@;
    let (d, t) = (reqs[0].0, reqs[0].1@);
    let fleet = by_size(minibuses);
    reveal_with_fuel(largest_from, 2);
    assert(largest_from(people, owner_pred(wants, true), 0, None) is None);
    assert(largest_from(people, owner_pred(wants, false), 0, None) is None);
    assert(car_driver(people, wants) is None);
    let c = cohort(people, fleet, wants, d, t);
    assert(c.groups =~= Seq::<GroupView>::empty());
    assert(plan(reqs.drop_first(), c.fleet, wants) =~= Seq::<GroupView>::empty());
    let gs = plan(reqs, fleet, wants);
    assert(gs =~= Seq::<GroupView>::empty());
    assert(placed_ids(gs) =~= Seq::<Seq<char>>::empty());
    lemma_requested_cons(reqs);
    assert(requested(reqs.drop_first()) =~= Seq::<Person>::empty());
    assert(requested(reqs) =~= people);
    assert(people.drop_last() =~= Seq::<Person>::empty());
    assert(missing_names(people.drop_last(), placed_ids(gs)) =~= Seq::<Seq<char>>::empty());
    assert(!placed_ids(gs).contains(people.last().student_id@));
    assert(missing_names(people, placed_ids(gs)) =~= seq![people[0].name@]);
}

proof fn lemma_requested_skip_empty(reqs: Seq<(Destination, String, Vec<Person>)>, i: int)
    requires
        0 <= i < reqs.len(),
        reqs[i].2@.len() == 0,
    ensures
        requested(reqs) == requested(reqs.remove(i)),
    decreases i,
{
    lemma_requested_cons(reqs);
    if i == 0 {
        assert(reqs.remove(0) =~= reqs.drop_first());
        assert(requested(reqs) =~= requested(reqs.drop_first()));
    } else {
        let r = reqs.remove(i);
        assert(r.drop_first() =~= reqs.drop_first().remove(i - 1));
        lemma_requested_skip_empty(reqs.drop_first(), i - 1);
        lemma_requested_cons(r);
    }
}

proof fn lemma_plan_skip_empty(reqs: Seq<(Destination, String, Vec<Person>)>, i: int, fleet: Seq<Minibus>, w: Set<Seq<char>>)
    requires
        0 <= i < reqs.len(),
        reqs[i].2@.len() == 0,
    ensures
        plan(reqs, fleet, w) == plan(reqs.remove(i), fleet, w),
    decreases i,
{
    let c = cohort(reqs[0].2@, fleet, w, reqs[0].0, reqs[0].1@);
    if i == 0 {
        assert(reqs.remove(0) =~= reqs.drop_first());
        assert(c.groups =~= Seq::<GroupView>::empty());
        assert(plan(reqs, fleet, w) =~= plan(reqs.drop_first(), fleet, w));
    } else {
        let r = reqs.remove(i);
        assert(r.drop_first() =~= reqs.drop_first().remove(i - 1));
        assert(r[0] == reqs[0]);
        lemma_plan_skip_empty(reqs.drop_first(), i - 1, c.fleet, w);
    }
}

/// A cohort nobody asked to join changes nothing: removing it gives the same
/// groups, or the same names.
pub proof fn empty_cohort_changes_nothing(reqs: Seq<(Destination, String, Vec<Person>)>, i: int, minibuses: Seq<Minibus>, wants: Set<Seq<char>>)
    requires
        0 <= i < reqs.len(),
        reqs[i].2@.len() == 0,
    ensures
        allocation(reqs, minibuses, wants) == allocation(reqs.remove(i), minibuses, wants),
{
    lemma_requested_skip_empty(reqs, i);
    lemma_plan_skip_empty(reqs, i, by_size(minibuses), wants);
}

/// A one-seat minibus is still taken when a driver is found: it leaves with
/// its driver alone, and the phase goes on with the other minibuses and
/// everyone else.
pub proof fn one_seat_minibus_carries_driver_only(
    people: Seq<Person>,
    fleet: Seq<Minibus>,
    wants: Set<Seq<char>>,
    dest: Destination,
    time: Seq<char>,
)
    requires
        people.len() > 1,
        fleet.len() > 0,
        fleet[0].seats == 1,
        minibus_driver(people, wants) is Some,
    ensures
        ({
            let d = minibus_driver(people, wants)->Some_0;
            let m = minibus_phase(people, fleet, wants, dest, time);
            let next = minibus_phase(people.remove(d), fleet.drop_first(), wants, dest, time);
            &&& m.groups == seq![minibus_group(people[d], fleet[0], dest, time)] + next.groups
            &&& m.groups[0].passengers.len() == 0
            &&& m.unseated == next.unseated
            &&& m.fleet == next.fleet
        }),
{
    let d = minibus_driver(people, wants)->Some_0;
    let g0 = minibus_group(people[d], fleet[0], dest, time);
    assert(fill(g0, people.remove(d)) == (g0, people.remove(d)));
    let next = minibus_phase(people.remove(d), fleet.drop_first(), wants, dest, time);
    assert((seq![g0] + next.groups)[0] == g0);
}

proof fn lemma_slot_bounds(t: Seq<Minibus>, m: Minibus, j: int)
    requires
        0 <= j <= t.len(),
        forall|a: int, b: int| 0 <= a < b < t.len() ==> t[a].seats >= t[b].seats,
        forall|a: int| 0 <= a < j ==> t[a].seats >= m.seats,
    ensures
        ({
            let s = slot_for(t, m, j);
            &&& j <= s <= t.len()
            &&& forall|a: int| 0 <= a < s ==> t[a].seats >= m.seats
            &&& forall|a: int| s <= a < t.len() ==> t[a].seats < m.seats
        }),
    decreases t.len() - j,
{
    if j < t.len() && t[j].seats >= m.seats {
        lemma_slot_bounds(t, m, j + 1);
    }
}

/// The working fleet lists the minibuses largest first, each as often as in
/// the inventory.
pub proof fn fleet_is_largest_first(minibuses: Seq<Minibus>)
    ensures
        forall|a: int, b: int| 0 <= a < b < by_size(minibuses).len() ==> by_size(minibuses)[a].seats >= by_size(minibuses)[b].seats,
        by_size(minibuses).to_multiset() == minibuses.to_multiset(),
    decreases minibuses.len(),
{
    if minibuses.len() > 0 {
        let rest = minibuses.drop_last();
        let m = minibuses.last();
        let t = by_size(rest);
        fleet_is_largest_first(rest);
        lemma_slot_bounds(t, m, 0);
        let s = slot_for(t, m, 0);
        let r = by_size(minibuses);
        assert(r == t.insert(s, m));
        assert forall|a: int, b: int| 0 <= a < b < r.len() implies r[a].seats >= r[b].seats by {
            if b < s {
                assert(r[a] == t[a] && r[b] == t[b]);
            } else if b == s {
                assert(r[a] == t[a]);
            } else if a < s {
                assert(r[a] == t[a] && r[b] == t[b - 1]);
            } else if a == s {
                assert(r[b] == t[b - 1]);
            } else {
                assert(r[a] == t[a - 1] && r[b] == t[b - 1]);
            }
        }
        assert(minibuses =~= rest.push(m));
    }
}

proof fn lemma_fill_count(g: GroupView, pool: Seq<Person>)
    requires
        g.passengers.len() + 1 <= g.capacity,
    ensures
        ({
            let (h, rest) = fill(g, pool);
            let room = g.capacity - 1 - g.passengers.len();
            let taken = if room < pool.len() { room } else { pool.len() as int };
            &&& h.passengers.len() == g.passengers.len() + taken
            &&& rest.len() == pool.len() - taken
        }),
    decreases pool.len(),
{
    if g.passengers.len() + 1 < g.capacity && pool.len() > 0 {
        let i = best_passenger(pool, g);
        lemma_best_from_in_range(pool, g, 1, 0);
        lemma_fill_count(seat(g, pool[i]), pool.remove(i));
    }
}

/// A vehicle that leaves with only its driver aboard takes passengers until
/// it is full or nobody is left: `min(capacity - 1, pool size)` of them, and
/// the pool shrinks by as many.
pub proof fn vehicle_fills_until_full_or_pool_empty(g: GroupView, pool: Seq<Person>)
    requires
        g.passengers.len() == 0,
        g.capacity >= 1,
    ensures
        ({
            let (h, rest) = fill(g, pool);
            let taken = if g.capacity - 1 < pool.len() { g.capacity - 1 } else { pool.len() as int };
            &&& h.passengers.len() == taken
            &&& rest.len() == pool.len() - taken
        }),
{
    lemma_fill_count(g, pool);
}

} // verus!
